use vstd::prelude::*;
use crate::format::email_ok;
use crate::pattern::regex_compiles;
use crate::validator::{
    document_errors, format_errors, length_errors, pattern_errors, pattern_found, properties_of,
    string_errors, is_closed, unknown_errors, unknown_message, unknown_property_errors,
};
use crate::value::{has_key, JsonValue};

verus! {

/// The message of an unknown key names that key and no other.
pub proof fn lemma_unknown_message_injective(a: Seq<char>, b: Seq<char>)
    requires
        unknown_message(a) == unknown_message(b),
    ensures
        a == b,
{
    let p = "unknown property \""@;
    let q = "\""@;
    assert(unknown_message(a).len() == p.len() + a.len() + q.len());
    assert(a =~= unknown_message(a).subrange(p.len() as int, p.len() + a.len() as int));
    assert(b =~= unknown_message(b).subrange(p.len() as int, p.len() + b.len() as int));
}

proof fn lemma_unknown_errors_flag(
    members: Seq<(String, JsonValue)>,
    props: Seq<(String, JsonValue)>,
    n: nat,
    key: Seq<char>,
)
    requires
        n <= members.len(),
    ensures
        unknown_errors(members, props, n).contains(("root"@, unknown_message(key))) <==> (
        !has_key(props, key) && exists|i: int| 0 <= i < n && #[trigger] members[i].0@ == key),
    decreases n,
{
    if n > 0 {
        lemma_unknown_errors_flag(members, props, (n - 1) as nat, key);
        let prev = unknown_errors(members, props, (n - 1) as nat);
        let k = members[n - 1].0@;
        let entry = ("root"@, unknown_message(key));
        if has_key(props, k) {
            assert(unknown_errors(members, props, n) =~= prev);
            if k == key {
                assert(!(!has_key(props, key)));
            } else {
                if exists|i: int| 0 <= i < n && #[trigger] members[i].0@ == key {
                    let i = choose|i: int| 0 <= i < n && #[trigger] members[i].0@ == key;
                    assert(i < n - 1);
                }
            }
        } else {
            let last = ("root"@, unknown_message(k));
            assert(unknown_errors(members, props, n) == prev + seq![last]);
            if (prev + seq![last]).contains(entry) {
                let j = choose|j: int| 0 <= j < (prev + seq![last]).len() && (prev + seq![last])[j] == entry;
                if j == prev.len() {
                    lemma_unknown_message_injective(k, key);
                    assert(members[n - 1].0@ == key);
                } else {
                    assert(prev[j] == entry);
                }
            }
            if !has_key(props, key) && exists|i: int| 0 <= i < n && #[trigger] members[i].0@ == key {
                let i = choose|i: int| 0 <= i < n && #[trigger] members[i].0@ == key;
                if i == n - 1 {
                    assert((prev + seq![last])[prev.len() as int] == entry);
                } else {
                    assert(prev.contains(entry));
                    let j = choose|j: int| 0 <= j < prev.len() && prev[j] == entry;
                    assert((prev + seq![last])[j] == entry);
                }
            }
        }
    }
}

/// Under a schema that forbids undeclared keys, a document that is an object
/// gets an unknown-key error for a key exactly when the document holds the key
/// and the schema does not declare it. These errors come first among the
/// document's errors.
pub proof fn lemma_closed_schema_flags_exactly_undeclared_keys(
    data: JsonValue,
    schema: JsonValue,
    key: Seq<char>,
)
    requires
        data.is_object(),
        properties_of(schema) is Some,
        is_closed(schema),
    ensures
        unknown_property_errors(data, schema).contains(("root"@, unknown_message(key))) <==> (
        has_key(data->Object_0@, key) && !has_key(properties_of(schema).unwrap(), key)),
        unknown_property_errors(data, schema).is_prefix_of(document_errors(data, schema)),
{
    let members = data->Object_0@;
    lemma_unknown_errors_flag(members, properties_of(schema).unwrap(), members.len(), key);
    let u = unknown_property_errors(data, schema);
    assert(u =~= document_errors(data, schema).subrange(0, u.len() as int));
}

/// Validation is a function of the document and the schema: two runs on the
/// same pair give the same errors in the same order.
pub proof fn lemma_validation_repeatable(
    data: JsonValue,
    schema: JsonValue,
    first: Seq<(Seq<char>, Seq<char>)>,
    second: Seq<(Seq<char>, Seq<char>)>,
)
    requires
        first == document_errors(data, schema),
        second == document_errors(data, schema),
    ensures
        first == second,
{
}

/// A pattern that does not compile is no constraint: it contributes no error,
/// and a string is checked as if the schema held no pattern.
pub proof fn lemma_invalid_pattern_is_ignored(
    path: Seq<char>,
    s: Seq<char>,
    schema: JsonValue,
    source: Seq<char>,
)
    requires
        schema.spec_get_str("pattern"@) == Some(source),
        !regex_compiles(source),
    ensures
        pattern_errors(path, schema, pattern_found(schema, s)) == Seq::<(Seq<char>, Seq<char>)>::empty(),
        string_errors(path, s, schema) == format_errors(path, s, schema, email_ok(s)) + length_errors(
            path,
            (vstd::utf8::encode_utf8(s).len() as usize) as nat,
            schema,
        ),
{
    assert(pattern_errors(path, schema, pattern_found(schema, s)) =~= seq![]);
    assert(string_errors(path, s, schema) =~= format_errors(path, s, schema, email_ok(s)) + length_errors(
        path,
        (vstd::utf8::encode_utf8(s).len() as usize) as nat,
        schema,
    ));
}

} // verus!
