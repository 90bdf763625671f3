//! The two shapes of extracted data, read from the members of a JSON object.
//!
//! In an object, a member that the shape asks for must be there with a value
//! of the right kind; an optional one may be missing or `null`; members that
//! the shape does not name are passed over. In an array, the fields stand in
//! the shape's order, all of them, an optional one as `null` where it is not
//! given, and nothing after them.

use vstd::prelude::*;
use vstd::string::StringExecFns;
use crate::error::{AppError, ErrorKind};
use crate::json::{
    get_number_at, get_optional_bool, get_optional_bool_at, get_optional_number,
    get_optional_number_at, get_optional_text, get_optional_text_at, get_required_number,
    get_required_text, get_text_at, members_view, number_at, optional_bool, optional_bool_at,
    optional_number, optional_number_at, optional_text, optional_text_at, parsed_array,
    parsed_object, read_array, read_object, required_number, required_text, text_at, JsonMember,
    JsonMemberView,
};
use crate::model::{
    BillingCycle, DomainExtraction, DomainExtractionView, SubscriptionExtraction,
    SubscriptionExtractionView,
};

verus! {

/// The subscription that the members of an object describe: `name`, `cost`,
/// `currency` and `billingCycle` (one of `monthly`, `yearly`, `one-time`),
/// and optionally `nextBillingDate` and `category`.
pub open spec fn subscription_shape(members: Seq<JsonMemberView>) -> Option<
    SubscriptionExtractionView,
> {
    match (
        required_text(members, "name"@),
        required_number(members, "cost"@),
        required_text(members, "currency"@),
        required_text(members, "billingCycle"@),
        optional_text(members, "nextBillingDate"@),
        optional_text(members, "category"@),
    ) {
        (Some(name), Some(amount), Some(currency), Some(cycle), Some(next_date), Some(category)) => {
            match BillingCycle::named(cycle) {
                Some(periodicity) => Some(
                    SubscriptionExtractionView {
                        name,
                        amount,
                        currency,
                        periodicity,
                        next_date,
                        category,
                    },
                ),
                None => None,
            }
        },
        _ => None,
    }
}

/// The domain that the members of an object describe: `domainName` and
/// `expiryDate`, and optionally `registrar`, `cost`, `currency`,
/// `registrationDate` and `autoRenew`.
pub open spec fn domain_shape(members: Seq<JsonMemberView>) -> Option<DomainExtractionView> {
    match (
        required_text(members, "domainName"@),
        optional_text(members, "registrar"@),
        optional_number(members, "cost"@),
        optional_text(members, "currency"@),
        optional_text(members, "registrationDate"@),
        required_text(members, "expiryDate"@),
        optional_bool(members, "autoRenew"@),
    ) {
        (
            Some(name),
            Some(registrar),
            Some(amount),
            Some(currency),
            Some(registration_date),
            Some(expiry_date),
            Some(auto_renew),
        ) => Some(
            DomainExtractionView {
                name,
                registrar,
                amount,
                currency,
                registration_date,
                expiry_date,
                auto_renew,
            },
        ),
        _ => None,
    }
}

/// The subscription that the elements of an array describe: name, cost,
/// currency, billing cycle, next billing date and category, in this order.
pub open spec fn subscription_row(elements: Seq<JsonMemberView>) -> Option<
    SubscriptionExtractionView,
> {
    if elements.len() != 6 {
        None
    } else {
        match (
            text_at(elements, 0),
            number_at(elements, 1),
            text_at(elements, 2),
            text_at(elements, 3),
            optional_text_at(elements, 4),
            optional_text_at(elements, 5),
        ) {
            (
                Some(name),
                Some(amount),
                Some(currency),
                Some(cycle),
                Some(next_date),
                Some(category),
            ) => match BillingCycle::named(cycle) {
                Some(periodicity) => Some(
                    SubscriptionExtractionView {
                        name,
                        amount,
                        currency,
                        periodicity,
                        next_date,
                        category,
                    },
                ),
                None => None,
            },
            _ => None,
        }
    }
}

/// The domain that the elements of an array describe: name, registrar, cost,
/// currency, registration date, expiry date and auto-renew flag, in this
/// order.
pub open spec fn domain_row(elements: Seq<JsonMemberView>) -> Option<DomainExtractionView> {
    if elements.len() != 7 {
        None
    } else {
        match (
            text_at(elements, 0),
            optional_text_at(elements, 1),
            optional_number_at(elements, 2),
            optional_text_at(elements, 3),
            optional_text_at(elements, 4),
            text_at(elements, 5),
            optional_bool_at(elements, 6),
        ) {
            (
                Some(name),
                Some(registrar),
                Some(amount),
                Some(currency),
                Some(registration_date),
                Some(expiry_date),
                Some(auto_renew),
            ) => Some(
                DomainExtractionView {
                    name,
                    registrar,
                    amount,
                    currency,
                    registration_date,
                    expiry_date,
                    auto_renew,
                },
            ),
            _ => None,
        }
    }
}

/// The subscription that a JSON text describes, as an object or as an array.
pub open spec fn subscription_payload(text: Seq<char>) -> Option<SubscriptionExtractionView> {
    match parsed_object(text) {
        Ok(members) => subscription_shape(members),
        Err(_) => match parsed_array(text) {
            Ok(elements) => subscription_row(elements),
            Err(_) => None,
        },
    }
}

/// The domain that a JSON text describes, as an object or as an array.
pub open spec fn domain_payload(text: Seq<char>) -> Option<DomainExtractionView> {
    match parsed_object(text) {
        Ok(members) => domain_shape(members),
        Err(_) => match parsed_array(text) {
            Ok(elements) => domain_row(elements),
            Err(_) => None,
        },
    }
}

fn invalid(what: &str) -> (e: AppError)
    ensures
        e.spec_kind() == ErrorKind::Validation,
        e.detail() == "Invalid extracted data: "@ + what@,
{
    AppError::Validation(String::from_str("Invalid extracted data: ").concat(what))
}

/// Reads a subscription from the members of an object.
pub fn read_subscription(members: &Vec<JsonMember>) -> (r: Result<SubscriptionExtraction, AppError>)
    ensures
        match subscription_shape(members_view(members@)) {
            Some(shape) => r is Ok && r->Ok_0@ == shape,
            None => r is Err && r->Err_0.spec_kind() == ErrorKind::Validation,
        },
{
    let name = match get_required_text(members, "name") {
        Some(v) => v,
        None => {
            return Err(invalid("name"));
        },
    };
    let amount = match get_required_number(members, "cost") {
        Some(v) => v,
        None => {
            return Err(invalid("cost"));
        },
    };
    let currency = match get_required_text(members, "currency") {
        Some(v) => v,
        None => {
            return Err(invalid("currency"));
        },
    };
    let cycle = match get_required_text(members, "billingCycle") {
        Some(v) => v,
        None => {
            return Err(invalid("billingCycle"));
        },
    };
    let next_date = match get_optional_text(members, "nextBillingDate") {
        Some(v) => v,
        None => {
            return Err(invalid("nextBillingDate"));
        },
    };
    let category = match get_optional_text(members, "category") {
        Some(v) => v,
        None => {
            return Err(invalid("category"));
        },
    };
    let periodicity = match BillingCycle::parse(cycle.as_str()) {
        Some(v) => v,
        None => {
            return Err(invalid("billingCycle"));
        },
    };
    Ok(SubscriptionExtraction { name, amount, currency, periodicity, next_date, category })
}

/// Reads a domain from the members of an object.
pub fn read_domain(members: &Vec<JsonMember>) -> (r: Result<DomainExtraction, AppError>)
    ensures
        match domain_shape(members_view(members@)) {
            Some(shape) => r is Ok && r->Ok_0@ == shape,
            None => r is Err && r->Err_0.spec_kind() == ErrorKind::Validation,
        },
{
    let name = match get_required_text(members, "domainName") {
        Some(v) => v,
        None => {
            return Err(invalid("domainName"));
        },
    };
    let registrar = match get_optional_text(members, "registrar") {
        Some(v) => v,
        None => {
            return Err(invalid("registrar"));
        },
    };
    let amount = match get_optional_number(members, "cost") {
        Some(v) => v,
        None => {
            return Err(invalid("cost"));
        },
    };
    let currency = match get_optional_text(members, "currency") {
        Some(v) => v,
        None => {
            return Err(invalid("currency"));
        },
    };
    let registration_date = match get_optional_text(members, "registrationDate") {
        Some(v) => v,
        None => {
            return Err(invalid("registrationDate"));
        },
    };
    let expiry_date = match get_required_text(members, "expiryDate") {
        Some(v) => v,
        None => {
            return Err(invalid("expiryDate"));
        },
    };
    let auto_renew = match get_optional_bool(members, "autoRenew") {
        Some(v) => v,
        None => {
            return Err(invalid("autoRenew"));
        },
    };
    Ok(
        DomainExtraction {
            name,
            registrar,
            amount,
            currency,
            registration_date,
            expiry_date,
            auto_renew,
        },
    )
}

/// Reads a subscription from the elements of an array.
pub fn read_subscription_row(elements: &Vec<JsonMember>) -> (r: Result<
    SubscriptionExtraction,
    AppError,
>)
    ensures
        match subscription_row(members_view(elements@)) {
            Some(shape) => r is Ok && r->Ok_0@ == shape,
            None => r is Err && r->Err_0.spec_kind() == ErrorKind::Validation,
        },
{
    if elements.len() != 6 {
        return Err(invalid("a subscription has six fields"));
    }
    let name = match get_text_at(elements, 0) {
        Some(v) => v,
        None => {
            return Err(invalid("name"));
        },
    };
    let amount = match get_number_at(elements, 1) {
        Some(v) => v,
        None => {
            return Err(invalid("cost"));
        },
    };
    let currency = match get_text_at(elements, 2) {
        Some(v) => v,
        None => {
            return Err(invalid("currency"));
        },
    };
    let cycle = match get_text_at(elements, 3) {
        Some(v) => v,
        None => {
            return Err(invalid("billingCycle"));
        },
    };
    let next_date = match get_optional_text_at(elements, 4) {
        Some(v) => v,
        None => {
            return Err(invalid("nextBillingDate"));
        },
    };
    let category = match get_optional_text_at(elements, 5) {
        Some(v) => v,
        None => {
            return Err(invalid("category"));
        },
    };
    let periodicity = match BillingCycle::parse(cycle.as_str()) {
        Some(v) => v,
        None => {
            return Err(invalid("billingCycle"));
        },
    };
    Ok(SubscriptionExtraction { name, amount, currency, periodicity, next_date, category })
}

/// Reads a domain from the elements of an array.
pub fn read_domain_row(elements: &Vec<JsonMember>) -> (r: Result<DomainExtraction, AppError>)
    ensures
        match domain_row(members_view(elements@)) {
            Some(shape) => r is Ok && r->Ok_0@ == shape,
            None => r is Err && r->Err_0.spec_kind() == ErrorKind::Validation,
        },
{
    if elements.len() != 7 {
        return Err(invalid("a domain has seven fields"));
    }
    let name = match get_text_at(elements, 0) {
        Some(v) => v,
        None => {
            return Err(invalid("domainName"));
        },
    };
    let registrar = match get_optional_text_at(elements, 1) {
        Some(v) => v,
        None => {
            return Err(invalid("registrar"));
        },
    };
    let amount = match get_optional_number_at(elements, 2) {
        Some(v) => v,
        None => {
            return Err(invalid("cost"));
        },
    };
    let currency = match get_optional_text_at(elements, 3) {
        Some(v) => v,
        None => {
            return Err(invalid("currency"));
        },
    };
    let registration_date = match get_optional_text_at(elements, 4) {
        Some(v) => v,
        None => {
            return Err(invalid("registrationDate"));
        },
    };
    let expiry_date = match get_text_at(elements, 5) {
        Some(v) => v,
        None => {
            return Err(invalid("expiryDate"));
        },
    };
    let auto_renew = match get_optional_bool_at(elements, 6) {
        Some(v) => v,
        None => {
            return Err(invalid("autoRenew"));
        },
    };
    Ok(
        DomainExtraction {
            name,
            registrar,
            amount,
            currency,
            registration_date,
            expiry_date,
            auto_renew,
        },
    )
}

/// Reads a subscription from a JSON text.
pub fn parse_subscription(text: &str) -> (r: Result<SubscriptionExtraction, AppError>)
    ensures
        match subscription_payload(text@) {
            Some(shape) => r is Ok && r->Ok_0@ == shape,
            None => r is Err && r->Err_0.spec_kind() == ErrorKind::Validation,
        },
{
    match read_object(text) {
        Ok(members) => read_subscription(&members),
        Err(why) => match read_array(text) {
            Ok(elements) => read_subscription_row(&elements),
            Err(_) => Err(invalid(why.as_str())),
        },
    }
}

/// Reads a domain from a JSON text.
pub fn parse_domain(text: &str) -> (r: Result<DomainExtraction, AppError>)
    ensures
        match domain_payload(text@) {
            Some(shape) => r is Ok && r->Ok_0@ == shape,
            None => r is Err && r->Err_0.spec_kind() == ErrorKind::Validation,
        },
{
    match read_object(text) {
        Ok(members) => read_domain(&members),
        Err(why) => match read_array(text) {
            Ok(elements) => read_domain_row(&elements),
            Err(_) => Err(invalid(why.as_str())),
        },
    }
}

} // verus!
