use vstd::prelude::*;

verus! {

/// One member of a secret's JSON object: its key, and the member's string
/// content when the member is a JSON string (`None` for any other JSON
/// value, which cannot become an environment variable).
#[derive(Debug, Clone)]
pub struct SecretEntry {
    pub name: String,
    pub text: Option<String>,
}

/// The mathematical value of one entry.
pub open spec fn entry_view(e: SecretEntry) -> (Seq<char>, Option<Seq<char>>) {
    (
        e.name@,
        match e.text {
            Some(t) => Some(t@),
            None => None,
        },
    )
}

/// The mathematical value of a list of entries.
pub open spec fn entries_view(es: Seq<SecretEntry>) -> Seq<(Seq<char>, Option<Seq<char>>)> {
    es.map_values(|e: SecretEntry| entry_view(e))
}

/// What `serde_json::from_str::<Value>` makes of a text: `None` when the text
/// is not a JSON object, otherwise the object's members in the order
/// serde_json hands them out, each with its string content when it is a JSON
/// string.  A deterministic function of the text alone.
pub uninterp spec fn json_object_entries(s: Seq<char>) -> Option<
    Seq<(Seq<char>, Option<Seq<char>>)>,
>;

/// Relies on `serde_json::from_str::<Value>`, `Value::as_object` and
/// `Value::as_str`: parsing depends on the text alone, and each member is
/// handed over unchanged.
#[verifier::external_body]
fn parse_object_entries(s: &str) -> (r: Option<Vec<SecretEntry>>)
    ensures
        r is Some <==> json_object_entries(s@) is Some,
        r matches Some(v) ==> json_object_entries(s@) == Some(entries_view(v@)),
{
    let value: serde_json::Value = match serde_json::from_str(s) {
        Ok(v) => v,
        Err(_) => return None,
    };
    let object = value.as_object()?;
    Some(
        object
            .iter()
            .map(|(k, v)| SecretEntry { name: k.clone(), text: v.as_str().map(String::from) })
            .collect(),
    )
}

/// A secret recovered from the cache or accepted from the remote source:
/// the exact JSON text, together with the object members parsed out of it.
#[derive(Debug)]
pub struct PlaintextSecret {
    pub raw: String,
    pub entries: Vec<SecretEntry>,
}

impl PlaintextSecret {
    /// The entries are exactly what the JSON text parses to.
    pub open spec fn wf(&self) -> bool {
        json_object_entries(self.raw@) == Some(entries_view(self.entries@))
    }

    /// Parses a JSON text as a secret payload: accepted exactly when the
    /// text is a JSON object, and kept verbatim.
    pub fn parse(s: &str) -> (r: Option<PlaintextSecret>)
        ensures
            r is Some <==> json_object_entries(s@) is Some,
            r matches Some(p) ==> p.wf() && p.raw@ == s@,
    {
        match parse_object_entries(s) {
            Some(entries) => Some(PlaintextSecret { raw: s.to_owned(), entries }),
            None => None,
        }
    }
}

} // verus!
