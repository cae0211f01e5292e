use vstd::prelude::*;
use vstd::string::StringExecFns;

verus! {

#[verifier::external_type_specification]
#[verifier::external_body]
pub struct ExValue(serde_yaml::Value);

#[verifier::external_type_specification]
#[verifier::external_body]
pub struct ExMapping(serde_yaml::Mapping);

/// The string payload of a YAML value, as serde_yaml::Value::as_str
/// reads it: present exactly for a string value.
pub uninterp spec fn str_of(v: serde_yaml::Value) -> Option<Seq<char>>;

/// The boolean payload, as serde_yaml::Value::as_bool reads it.
pub uninterp spec fn bool_of(v: serde_yaml::Value) -> Option<bool>;

/// The integer payload, as serde_yaml::Value::as_i64 reads it.
pub uninterp spec fn int_of(v: serde_yaml::Value) -> Option<i64>;

/// The decimal text of a numeric value, as serde_yaml::Number's
/// Display writes it: a function of the number alone.
pub uninterp spec fn number_text_of(v: serde_yaml::Value) -> Option<Seq<char>>;

/// The elements of a sequence value, in document order, as
/// serde_yaml::Value::as_sequence hands them out.
pub uninterp spec fn items_of(v: serde_yaml::Value) -> Option<Seq<serde_yaml::Value>>;

/// The entries of a mapping value, in the mapping's preserved order,
/// as serde_yaml::Value::as_mapping and Mapping::iter hand them out.
pub uninterp spec fn entries_of(v: serde_yaml::Value) -> Option<
    Seq<(serde_yaml::Value, serde_yaml::Value)>,
>;

/// What serde_yaml::Mapping::get returns for a string key.
pub uninterp spec fn map_get_str(m: serde_yaml::Mapping, key: Seq<char>) -> Option<
    serde_yaml::Value,
>;

/// What serde_yaml::Value::get returns for a string key: the entry of
/// a mapping value, absent for a missing key or a non-mapping value.
pub uninterp spec fn value_get_str(v: serde_yaml::Value, key: Seq<char>) -> Option<
    serde_yaml::Value,
>;

/// What serde_yaml::from_str parses YAML text into, when the document
/// is a top-level mapping.
pub uninterp spec fn parsed_doc(s: Seq<char>) -> Option<serde_yaml::Mapping>;

/// The value reads as nothing under every accessor, as Value::Null
/// does: each accessor matches only its own variant.
pub open spec fn yaml_absent(v: serde_yaml::Value) -> bool {
    &&& str_of(v) is None
    &&& bool_of(v) is None
    &&& int_of(v) is None
    &&& number_text_of(v) is None
    &&& items_of(v) is None
    &&& entries_of(v) is None
    &&& forall|k: Seq<char>| (#[trigger] value_get_str(v, k)) is None
}

/// Relies on serde_yaml::from_str::<Mapping>: parses YAML text into
/// its top-level mapping; the result is a function of the text alone.
#[verifier::external_body]
pub fn parse_document(s: &str) -> (r: Option<serde_yaml::Mapping>)
    ensures
        match r {
            Some(m) => parsed_doc(s@) == Some(m),
            None => parsed_doc(s@) is None,
        },
{
    serde_yaml::from_str::<serde_yaml::Mapping>(s).ok()
}

/// Relies on serde_yaml::Value::as_str: the string payload of a
/// string value, and nothing for any other variant.
#[verifier::external_body]
pub(crate) fn value_as_string(v: &serde_yaml::Value) -> (r: Option<String>)
    ensures
        match r {
            Some(s) => str_of(*v) == Some(s@),
            None => str_of(*v) is None,
        },
{
    v.as_str().map(|s| s.to_owned())
}

/// Relies on serde_yaml::Value::as_bool.
#[verifier::external_body]
pub(crate) fn value_as_bool(v: &serde_yaml::Value) -> (r: Option<bool>)
    ensures
        r == bool_of(*v),
{
    v.as_bool()
}

/// Relies on serde_yaml::Value::as_i64.
#[verifier::external_body]
pub(crate) fn value_as_i64(v: &serde_yaml::Value) -> (r: Option<i64>)
    ensures
        r == int_of(*v),
{
    v.as_i64()
}

/// Relies on serde_yaml::Number's Display implementation: renders a
/// numeric value's decimal text; any other variant reads as nothing.
#[verifier::external_body]
pub(crate) fn value_number_text(v: &serde_yaml::Value) -> (r: Option<String>)
    ensures
        match r {
            Some(s) => number_text_of(*v) == Some(s@),
            None => number_text_of(*v) is None,
        },
{
    match v {
        serde_yaml::Value::Number(n) => Some(n.to_string()),
        _ => None,
    }
}

/// Relies on serde_yaml::Value::as_sequence: the elements of a
/// sequence value, in order.
#[verifier::external_body]
pub(crate) fn value_items(v: &serde_yaml::Value) -> (r: Option<Vec<serde_yaml::Value>>)
    ensures
        match r {
            Some(items) => items_of(*v) == Some(items@),
            None => items_of(*v) is None,
        },
{
    v.as_sequence().map(|s| s.to_vec())
}

/// Relies on serde_yaml::Value::as_mapping and Mapping::iter: the
/// entries of a mapping value, in the mapping's preserved order.
#[verifier::external_body]
pub(crate) fn value_entries(v: &serde_yaml::Value) -> (r: Option<
    Vec<(serde_yaml::Value, serde_yaml::Value)>,
>)
    ensures
        match r {
            Some(es) => entries_of(*v) == Some(es@),
            None => entries_of(*v) is None,
        },
{
    v.as_mapping().map(|m| m.iter().map(|(k, val)| (k.clone(), val.clone())).collect())
}

/// Relies on serde_yaml::Value::get with a string key: the entry of a
/// mapping value at that key, absent for a missing key or a
/// non-mapping value.
#[verifier::external_body]
pub(crate) fn value_get(v: &serde_yaml::Value, key: &str) -> (r: Option<serde_yaml::Value>)
    ensures
        match r {
            Some(x) => value_get_str(*v, key@) == Some(x),
            None => value_get_str(*v, key@) is None,
        },
{
    v.get(key).cloned()
}

/// Relies on serde_yaml::Value::String: a string value whose payload
/// is the key, as Value::as_str reads it back.
#[verifier::external_body]
pub fn get_key_mapping(key: &str) -> (r: serde_yaml::Value)
    ensures
        str_of(r) == Some(key@),
{
    serde_yaml::Value::String(key.to_owned())
}

/// Relies on serde_yaml::Mapping::get, and on every accessor of
/// Value::Null reading as nothing: looks a key up in a document
/// mapping, falling back to the null value for a missing key.
#[verifier::external_body]
pub fn get_value_mapping(yaml: &serde_yaml::Mapping, key: &str) -> (r: serde_yaml::Value)
    ensures
        match map_get_str(*yaml, key@) {
            Some(v) => r == v,
            None => yaml_absent(r),
        },
{
    yaml.get(serde_yaml::Value::String(key.to_owned())).cloned().unwrap_or_default()
}

/// The code-file extension the judge's configuration assigns to a
/// language: the configuration's "language" table names one language
/// entry; when its "id" matches, its "extension" is the answer, and
/// every failure along the way reads as the empty extension.
pub open spec fn code_extension_spec(config: serde_yaml::Mapping, language: Seq<char>) -> Seq<
    char,
> {
    match map_get_str(config, "language"@) {
        Some(lv) => {
            if entries_of(lv) is Some {
                match value_get_str(lv, "id"@) {
                    Some(idv) => {
                        if str_of(idv) == Some(language) {
                            match value_get_str(lv, "extension"@) {
                                Some(ev) => match str_of(ev) {
                                    Some(e) => e,
                                    None => Seq::<char>::empty(),
                                },
                                None => Seq::<char>::empty(),
                            }
                        } else {
                            Seq::<char>::empty()
                        }
                    },
                    None => Seq::<char>::empty(),
                }
            } else {
                Seq::<char>::empty()
            }
        },
        None => Seq::<char>::empty(),
    }
}

/// Looks the language's code-file extension up in the judge's
/// configuration document.
pub fn get_code_extension(language: &str, config: &serde_yaml::Mapping) -> (r: String)
    ensures
        r@ == code_extension_spec(*config, language@),
{
    let lang_val = get_value_mapping(config, "language");
    let entries = value_entries(&lang_val);
    if entries.is_none() {
        return String::new();
    }
    match value_get(&lang_val, "id") {
        Some(idv) => {
            match value_as_string(&idv) {
                Some(id_s) => {
                    let lang_owned: String = language.to_owned();
                    if id_s.eq(&lang_owned) {
                        match value_get(&lang_val, "extension") {
                            Some(ev) => match value_as_string(&ev) {
                                Some(e) => e,
                                None => String::new(),
                            },
                            None => String::new(),
                        }
                    } else {
                        String::new()
                    }
                },
                None => String::new(),
            }
        },
        None => String::new(),
    }
}

/// The operator-facing message the configuration assigns to a verdict
/// status: the "message" table's entry for the status, the empty
/// message for anything missing or non-textual.
pub open spec fn message_spec(config: serde_yaml::Mapping, status: Seq<char>) -> Seq<char> {
    match map_get_str(config, "message"@) {
        Some(mv) => match value_get_str(mv, status) {
            Some(sv) => match str_of(sv) {
                Some(m) => m,
                None => Seq::<char>::empty(),
            },
            None => Seq::<char>::empty(),
        },
        None => Seq::<char>::empty(),
    }
}

/// Looks the status message up in the judge's configuration document.
pub fn get_message(status: &str, config: &serde_yaml::Mapping) -> (r: String)
    ensures
        r@ == message_spec(*config, status@),
{
    let msg_val = get_value_mapping(config, "message");
    match value_get(&msg_val, status) {
        Some(sv) => match value_as_string(&sv) {
            Some(m) => m,
            None => String::new(),
        },
        None => String::new(),
    }
}

} // verus!
