//! The ABI modules: one per contract, exporting its ABI as a constant.
use vstd::prelude::*;

verus! {

/// serde_json's Error, the failure of a serialisation.
#[verifier::external_type_specification]
#[verifier::external_body]
pub struct ExJsonError(serde_json::Error);

/// The pretty-printed JSON text of a value, as serde_json writes it.
pub uninterp spec fn pretty_json(v: serde_json::Value) -> Seq<char>;

/// Relies on serde_json::to_string_pretty: its text depends on the value alone,
/// and on a `Value` it succeeds, since it writes into a `Vec` and a `Value`'s
/// object keys are strings.
#[verifier::external_body]
fn to_pretty_json(v: &serde_json::Value) -> (r: Result<String, serde_json::Error>)
    ensures
        r is Ok,
        r is Ok ==> r->Ok_0@ == pretty_json(*v),
{
    serde_json::to_string_pretty(v)
}

/// The text of an ABI module around the JSON text `json`.
pub open spec fn abi_text(json: Seq<char>) -> Seq<char> {
    "export default "@ + json + " as const;\n"@
}

/// The file name of a contract's ABI module.
pub open spec fn abi_file_name(name: Seq<char>) -> Seq<char> {
    name + ".ts"@
}

/// Wraps the JSON text of an ABI in a module that exports it as a constant.
pub fn abi_module(json: &str) -> (r: String)
    ensures
        r@ == abi_text(json@),
{
    let mut s = String::from_str("export default ");
    s.append(json);
    s.append(" as const;\n");
    s
}

/// The file name `<name>.ts` of a contract's ABI module.
pub fn abi_module_name(name: &str) -> (r: String)
    ensures
        r@ == abi_file_name(name@),
{
    let mut s = String::from_str(name);
    s.append(".ts");
    s
}

/// Serialises an ABI as pretty-printed JSON and wraps it in its module.
pub fn render_abi(abi: &serde_json::Value) -> (r: String)
    ensures
        r@ == abi_text(pretty_json(*abi)),
{
    match to_pretty_json(abi) {
        Ok(json) => abi_module(json.as_str()),
        Err(_) => unreached(),
    }
}

} // verus!
