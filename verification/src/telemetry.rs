use vstd::prelude::*;

use crate::text::str_eq;

verus! {

/// Whether the value of `OTEL_SDK_DISABLED` (`None` where it is unset)
/// turns OpenTelemetry off: it does where it is `true` or `1`.
pub fn otel_disabled(value: Option<&str>) -> (disabled: bool)
    ensures
        disabled == (value matches Some(v) && (v@ == "true"@ || v@ == "1"@)),
{
    match value {
        Some(v) => str_eq(v, "true") || str_eq(v, "1"),
        None => false,
    }
}

/// The OTLP endpoint that the value of `OTEL_EXPORTER_OTLP_ENDPOINT` gives,
/// `http://localhost:4317` where it is unset.
pub fn otlp_endpoint(value: Option<String>) -> (endpoint: String)
    ensures
        endpoint@ == match value {
            Some(v) => v@,
            None => "http://localhost:4317"@,
        },
{
    match value {
        Some(v) => v,
        None => "http://localhost:4317".to_owned(),
    }
}

} // verus!
