//! The logsource section of a rule.
use vstd::prelude::*;

use crate::text::str_eq;

verus! {

/// Logsource represents the logsource field in sigma rule
/// It defines relevant event streams and is used for pre-filtering
#[derive(Debug)]
pub struct Logsource {
    /// Product name (e.g., windows, linux)
    pub product: Option<String>,
    /// Log category (e.g., process_creation, network_connection)
    pub category: Option<String>,
    /// Service name (e.g., sysmon, security)
    pub service: Option<String>,
    /// Custom definition for log source
    pub definition: Option<String>,
}

/// A filter accepts a field when it is absent, or when the field is set to
/// the same text.
pub open spec fn filter_accepts(filter: Option<Seq<char>>, field: Option<String>) -> bool {
    match filter {
        None => true,
        Some(f) => match field {
            Some(v) => v@ == f,
            None => false,
        },
    }
}

/// The view of an optional string slice.
pub open spec fn opt_view(o: Option<&str>) -> Option<Seq<char>> {
    match o {
        Some(s) => Some(s@),
        None => None,
    }
}

fn filter_matches(filter: Option<&str>, field: &Option<String>) -> (r: bool)
    ensures
        r == filter_accepts(opt_view(filter), *field),
{
    match (filter, field) {
        (Some(p), Some(mine)) => str_eq(p, mine.as_str()),
        (None, _) => true,
        (Some(_), None) => false,
    }
}

impl Logsource {
    /// A logsource with no field set.
    pub fn empty() -> (r: Self)
        ensures
            r.product is None,
            r.category is None,
            r.service is None,
            r.definition is None,
    {
        Logsource { product: None, category: None, service: None, definition: None }
    }

    /// Check if this logsource matches the provided filters
    pub fn matches(&self, product: Option<&str>, category: Option<&str>, service: Option<&str>) -> (r:
        bool)
        ensures
            r == (filter_accepts(opt_view(product), self.product) && filter_accepts(
                opt_view(category),
                self.category,
            ) && filter_accepts(opt_view(service), self.service)),
    {
        let product_match = filter_matches(product, &self.product);
        let category_match = filter_matches(category, &self.category);
        let service_match = filter_matches(service, &self.service);
        product_match && category_match && service_match
    }
}

impl Default for Logsource {
    fn default() -> (r: Self)
        ensures
            r.product is None,
            r.category is None,
            r.service is None,
            r.definition is None,
    {
        Logsource::empty()
    }
}

} // verus!
