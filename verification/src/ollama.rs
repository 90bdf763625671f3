//! The extraction client's part that computes: the prompt and the request
//! for the inference service, and the reading of what it generated.

use vstd::prelude::*;
use vstd::string::{StrSliceExecFns, StringExecFns};
use crate::error::{
    extraction_error, result_view, AppError, AppErrorView, AppResult, ErrorKind,
};
use crate::index::{
    first_index, last_index, lemma_first_index_found, lemma_first_index_missing,
    lemma_last_index_found, lemma_last_index_missing,
};
use crate::json::{
    find_member, get_required_number, get_required_text, member, members_view, parsed_object,
    read_object, required_number, required_text, JsonMember, JsonMemberView,
};
use crate::text::chars_of;

verus! {

/// The instructions that stand before the receipt in every prompt.
pub const PROMPT_HEAD: &'static str =
    "You are a receipt and billing document analyzer. Your task is to classify and extract data from receipts.

CLASSIFICATION OPTIONS:
- \"subscription\": Recurring payment (monthly/yearly service)
- \"domain\": Domain registration or renewal
- \"junk\": Spam, promotional email, or irrelevant content

CONFIDENCE: Return a value from 0.0 to 1.0 indicating how confident you are.

EXTRACTION RULES:
- For subscriptions: Extract vendor name, amount, currency, billing cycle (monthly/yearly/one-time), and, where given, next billing date and category
- For domains: Extract domain name and expiry date, and, where given, registrar, registration date, auto-renew flag, cost and currency
- For junk: Return an empty data object
- All dates should be in ISO format (YYYY-MM-DD)
- Currency codes should be 3-letter ISO codes (USD, EUR, GBP, etc.)

Return ONLY valid JSON matching this structure:
{
  \"type\": \"subscription\" | \"domain\" | \"junk\",
  \"confidence\": 0.0-1.0,
  \"data\": {
    // For subscriptions:
    \"name\": \"string\",
    \"cost\": number,
    \"currency\": \"string\",
    \"billingCycle\": \"monthly\" | \"yearly\" | \"one-time\",
    \"nextBillingDate\": \"YYYY-MM-DD\" (optional),
    \"category\": \"string\" (optional)

    // For domains:
    \"domainName\": \"string\",
    \"expiryDate\": \"YYYY-MM-DD\",
    \"registrar\": \"string\" (optional),
    \"registrationDate\": \"YYYY-MM-DD\" (optional),
    \"autoRenew\": true | false (optional),
    \"cost\": number (optional),
    \"currency\": \"string\" (optional)
  }
}

RECEIPT CONTENT:
";

/// What stands after the receipt in every prompt.
pub const PROMPT_TAIL: &'static str = "\n";

/// The prompt for a receipt: the instructions, the receipt, a line end.
pub open spec fn prompt_for(content: Seq<char>) -> Seq<char> {
    PROMPT_HEAD@ + content + PROMPT_TAIL@
}

/// The part of an answer that is read as JSON: from its first `{` to its
/// last `}`, both included. `None` where one of the two is missing or the
/// first `{` stands after the last `}`.
pub open spec fn json_span(answer: Seq<char>) -> Option<Seq<char>> {
    match (first_index(answer, '{'), last_index(answer, '}')) {
        (Some(open), Some(close)) => if open <= close {
            Some(answer.subrange(open, close + 1))
        } else {
            None
        },
        _ => None,
    }
}

/// What extraction made of one message.
#[derive(Clone, Debug, PartialEq, Eq)]
pub struct LlmExtractionResult {
    pub classification: String,
    /// The bits of an IEEE-754 double.
    pub confidence: u64,
    /// The extracted fields, as compact JSON.
    pub data: String,
}

pub struct LlmExtractionResultView {
    pub classification: Seq<char>,
    pub confidence: u64,
    pub data: Seq<char>,
}

impl View for LlmExtractionResult {
    type V = LlmExtractionResultView;

    open spec fn view(&self) -> LlmExtractionResultView {
        LlmExtractionResultView {
            classification: self.classification@,
            confidence: self.confidence,
            data: self.data@,
        }
    }
}

/// The extraction that the members of an object describe: a string `type`,
/// a number `confidence`, and `data` of any kind, kept as JSON text; or an
/// error of class `Extraction` that names the first of the three that is
/// missing or of another kind.
pub open spec fn extraction_shape(members: Seq<JsonMemberView>) -> Result<
    LlmExtractionResultView,
    AppErrorView,
> {
    match required_text(members, "type"@) {
        None => Err(extraction_error("Failed to parse LLM JSON: type"@)),
        Some(classification) => match required_number(members, "confidence"@) {
            None => Err(extraction_error("Failed to parse LLM JSON: confidence"@)),
            Some(confidence) => match member(members, "data"@) {
                None => Err(extraction_error("Failed to parse LLM JSON: data"@)),
                Some(data) => Ok(
                    LlmExtractionResultView { classification, confidence, data: data.text },
                ),
            },
        },
    }
}

/// The extraction that an answer of the inference service holds, or an error
/// of class `Extraction` that says what the answer lacks.
pub open spec fn extraction_of(answer: Seq<char>) -> Result<LlmExtractionResultView, AppErrorView> {
    match json_span(answer) {
        Some(text) => match parsed_object(text) {
            Ok(members) => extraction_shape(members),
            Err(why) => Err(extraction_error("Failed to parse LLM JSON: "@ + why)),
        },
        None => Err(extraction_error("No JSON found in Ollama response"@)),
    }
}

/// The text that the inference service generated, taken from the body of its
/// reply: the string member `response` of a JSON object.
pub open spec fn generated_text(body: Seq<char>) -> Option<Seq<char>> {
    match parsed_object(body) {
        Ok(members) => required_text(members, "response"@),
        Err(_) => None,
    }
}

/// One model that the inference service offers.
#[derive(Clone, Debug, PartialEq, Eq)]
pub struct OllamaModel {
    pub name: String,
}

/// A request to generate text, not streamed.
#[derive(Clone, Debug, PartialEq, Eq)]
pub struct OllamaRequest {
    pub url: String,
    pub model: String,
    pub prompt: String,
    pub stream: bool,
}

pub struct OllamaRequestView {
    pub url: Seq<char>,
    pub model: Seq<char>,
    pub prompt: Seq<char>,
    pub stream: bool,
}

impl View for OllamaRequest {
    type V = OllamaRequestView;

    open spec fn view(&self) -> OllamaRequestView {
        OllamaRequestView {
            url: self.url@,
            model: self.model@,
            prompt: self.prompt@,
            stream: self.stream,
        }
    }
}

/// Where the inference service is and which model it is asked for.
#[derive(Clone, Debug, PartialEq, Eq)]
pub struct OllamaService {
    endpoint: String,
    model: String,
}

pub struct OllamaServiceView {
    pub endpoint: Seq<char>,
    pub model: Seq<char>,
}

impl View for OllamaService {
    type V = OllamaServiceView;

    closed spec fn view(&self) -> OllamaServiceView {
        OllamaServiceView { endpoint: self.endpoint@, model: self.model@ }
    }
}

impl OllamaServiceView {
    /// The request that asks this service to answer `prompt`.
    pub open spec fn request(self, prompt: Seq<char>) -> OllamaRequestView {
        OllamaRequestView {
            url: self.endpoint + "/api/generate"@,
            model: self.model,
            prompt: prompt,
            stream: false,
        }
    }
}

/// The places of the first `{` and the last `}` of an answer.
pub fn locate_json(answer: &Vec<char>) -> (r: Option<(usize, usize)>)
    ensures
        match r {
            Some((open, close)) => open <= close < answer@.len() && json_span(answer@) == Some(
                answer@.subrange(open as int, close + 1),
            ),
            None => json_span(answer@) is None,
        },
{
    let n = answer.len();
    let mut open: usize = 0;
    while open < n && answer[open] != '{'
        invariant
            open <= n,
            n == answer@.len(),
            forall|j: int| 0 <= j < open ==> answer@[j] != '{',
        decreases n - open,
    {
        open += 1;
    }
    if open == n {
        proof {
            lemma_first_index_missing(answer@, '{');
        }
        return None;
    }
    proof {
        lemma_first_index_found(answer@, '{', open as int);
    }
    let mut close: usize = n;
    while close > 0 && answer[close - 1] != '}'
        invariant
            close <= n,
            n == answer@.len(),
            forall|j: int| close <= j < n ==> answer@[j] != '}',
        decreases close,
    {
        close -= 1;
    }
    if close == 0 {
        proof {
            lemma_last_index_missing(answer@, '}');
        }
        return None;
    }
    proof {
        lemma_last_index_found(answer@, '}', close - 1);
    }
    if open > close - 1 {
        return None;
    }
    Some((open, close - 1))
}

impl OllamaService {
    pub fn new(endpoint: String, model: String) -> (s: Self)
        ensures
            s@ == (OllamaServiceView { endpoint: endpoint@, model: model@ }),
    {
        Self { endpoint, model }
    }

    /// A copy of this service.
    pub fn copy(&self) -> (r: Self)
        ensures
            r@ == self@,
    {
        Self { endpoint: self.endpoint.clone(), model: self.model.clone() }
    }

    pub fn endpoint(&self) -> (r: &str)
        ensures
            r@ == self@.endpoint,
    {
        self.endpoint.as_str()
    }

    pub fn model(&self) -> (r: &str)
        ensures
            r@ == self@.model,
    {
        self.model.as_str()
    }

    /// The address that lists the models of the service at `endpoint`.
    pub fn tags_url(endpoint: &str) -> (r: String)
        ensures
            r@ == endpoint@ + "/api/tags"@,
    {
        String::from_str(endpoint).concat("/api/tags")
    }

    /// The prompt for a receipt.
    pub fn build_prompt(markdown_content: &str) -> (r: String)
        ensures
            r@ == prompt_for(markdown_content@),
    {
        String::from_str(PROMPT_HEAD).concat(markdown_content).concat(PROMPT_TAIL)
    }

    /// The request that asks this service to answer `prompt`.
    pub fn request(&self, prompt: String) -> (r: OllamaRequest)
        ensures
            r@ == self@.request(prompt@),
    {
        OllamaRequest {
            url: self.endpoint.clone().concat("/api/generate"),
            model: self.model.clone(),
            prompt,
            stream: false,
        }
    }

    /// The text that the service generated, from the body of its reply.
    pub fn read_generated(body: &str) -> (r: AppResult<String>)
        ensures
            match generated_text(body@) {
                Some(text) => r is Ok && r->Ok_0@ == text,
                None => r is Err && r->Err_0.spec_kind() == ErrorKind::Extraction,
            },
    {
        match read_object(body) {
            Ok(members) => match get_required_text(&members, "response") {
                Some(text) => Ok(text),
                None => Err(
                    AppError::Extraction(
                        String::from_str("Failed to parse Ollama response: no response text"),
                    ),
                ),
            },
            Err(why) => Err(
                AppError::Extraction(
                    String::from_str("Failed to parse Ollama response: ").concat(why.as_str()),
                ),
            ),
        }
    }

    /// The extraction that the members of an object describe.
    pub fn read_extraction(members: &Vec<JsonMember>) -> (r: AppResult<LlmExtractionResult>)
        ensures
            result_view(r) == extraction_shape(members_view(members@)),
    {
        let classification = match get_required_text(members, "type") {
            Some(v) => v,
            None => {
                return Err(
                    AppError::Extraction(String::from_str("Failed to parse LLM JSON: type")),
                );
            },
        };
        let confidence = match get_required_number(members, "confidence") {
            Some(v) => v,
            None => {
                return Err(
                    AppError::Extraction(String::from_str("Failed to parse LLM JSON: confidence")),
                );
            },
        };
        let data = match find_member(members, "data") {
            Some(m) => m.text.clone(),
            None => {
                return Err(
                    AppError::Extraction(String::from_str("Failed to parse LLM JSON: data")),
                );
            },
        };
        Ok(LlmExtractionResult { classification, confidence, data })
    }

    /// Reads what the service generated for a receipt: the text from the
    /// first `{` to the last `}` must be a JSON object with `type`,
    /// `confidence` and `data`. Any other answer gives an error of class
    /// `Extraction`.
    pub fn extract_receipt_data(answer: &str) -> (r: AppResult<LlmExtractionResult>)
        ensures
            result_view(r) == extraction_of(answer@),
    {
        let chars = chars_of(answer);
        let (open, close) = match locate_json(&chars) {
            Some(span) => span,
            None => {
                return Err(
                    AppError::Extraction(String::from_str("No JSON found in Ollama response")),
                );
            },
        };
        assert(close < chars.len());
        let text = answer.substring_char(open, close + 1);
        match read_object(text) {
            Ok(members) => OllamaService::read_extraction(&members),
            Err(why) => Err(
                AppError::Extraction(
                    String::from_str("Failed to parse LLM JSON: ").concat(why.as_str()),
                ),
            ),
        }
    }
}

} // verus!
