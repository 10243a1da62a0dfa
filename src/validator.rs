use vstd::prelude::*;
use crate::format::{email_ok, is_valid_email, is_valid_uri, uri_ok};
use crate::pattern::{search, search_outcome};
use crate::text::{concat3, decimal, decimal_string};
use crate::value::{has_key, lookup, str_eq, JsonValue};

verus! {

broadcast use {vstd::std_specs::vec::axiom_vec_decreases_to_view, vstd::std_specs::vec::axiom_vec_index_decreases};

/// One violation: where it is (a path such as `.owner.email` or `.tags[2]`,
/// or `root`) and what is wrong.
pub struct ValidationError {
    pub path: String,
    pub message: String,
}

impl View for ValidationError {
    type V = (Seq<char>, Seq<char>);

    open spec fn view(&self) -> (Seq<char>, Seq<char>) {
        (self.path@, self.message@)
    }
}

impl ValidationError {
    /// The error as one line of text, `<path>: <message>`.
    pub fn text(&self) -> (r: String)
        ensures
            r@ == self.path@ + ": "@ + self.message@,
    {
        concat3(self.path.as_str(), ": ", self.message.as_str())
    }
}

/// The errors as (path, message) pairs.
pub open spec fn views(errors: Seq<ValidationError>) -> Seq<(Seq<char>, Seq<char>)> {
    errors.map_values(|e: ValidationError| e@)
}

pub open spec fn member_path(path: Seq<char>, key: Seq<char>) -> Seq<char> {
    path + "."@ + key
}

pub open spec fn element_path(path: Seq<char>, i: nat) -> Seq<char> {
    path + "["@ + decimal(i) + "]"@
}

/// The format check of a string schema, given whether `s` is a valid email.
pub open spec fn format_errors(path: Seq<char>, s: Seq<char>, schema: JsonValue, email_valid: bool) -> Seq<
    (Seq<char>, Seq<char>),
> {
    match schema.spec_get_str("format"@) {
        Some(f) => if f == "uri"@ {
            if uri_ok(s) {
                seq![]
            } else {
                seq![(path, "invalid URI \""@ + s + "\""@)]
            }
        } else if f == "email"@ {
            if email_valid {
                seq![]
            } else {
                seq![(path, "invalid email \""@ + s + "\""@)]
            }
        } else {
            seq![]
        },
        None => seq![],
    }
}

/// The pattern check of a string schema, given what the search found
/// (`None`: no pattern, or one that does not compile).
pub open spec fn pattern_errors(path: Seq<char>, schema: JsonValue, pattern_found: Option<bool>) -> Seq<
    (Seq<char>, Seq<char>),
> {
    match (schema.spec_get_str("pattern"@), pattern_found) {
        (Some(p), Some(false)) => seq![(path, "does not match pattern "@ + p)],
        _ => seq![],
    }
}

/// The minimum-length check of a string schema on a string of `byte_len` bytes.
pub open spec fn length_errors(path: Seq<char>, byte_len: nat, schema: JsonValue) -> Seq<
    (Seq<char>, Seq<char>),
> {
    match schema.spec_get_u64("minLength"@) {
        Some(min) => if byte_len < min {
            seq![(path, "string too short (min "@ + decimal(min as nat) + ")"@)]
        } else {
            seq![]
        },
        None => seq![],
    }
}

/// The checks of a string schema, in order: format, pattern, minimum length.
pub open spec fn string_checks(
    path: Seq<char>,
    s: Seq<char>,
    byte_len: nat,
    schema: JsonValue,
    email_valid: bool,
    pattern_found: Option<bool>,
) -> Seq<(Seq<char>, Seq<char>)> {
    format_errors(path, s, schema, email_valid) + pattern_errors(path, schema, pattern_found)
        + length_errors(path, byte_len, schema)
}

/// What the pattern search on `s` finds for this schema.
pub open spec fn pattern_found(schema: JsonValue, s: Seq<char>) -> Option<bool> {
    match schema.spec_get_str("pattern"@) {
        Some(p) => search_outcome(p, s),
        None => None,
    }
}

/// The errors of a string value under a string schema. Its length is counted
/// in bytes of its UTF-8 encoding, as a machine-sized count.
pub open spec fn string_errors(path: Seq<char>, s: Seq<char>, schema: JsonValue) -> Seq<(Seq<char>, Seq<char>)> {
    string_checks(path, s, (vstd::utf8::encode_utf8(s).len() as usize) as nat, schema, email_ok(s), pattern_found(schema, s))
}

/// The `minItems` / `maxItems` checks of a tuple-mode array of `len` elements.
pub open spec fn bound_errors(path: Seq<char>, len: nat, schema: JsonValue) -> Seq<(Seq<char>, Seq<char>)> {
    let low = match schema.spec_get_u64("minItems"@) {
        Some(min) => if len < min {
            seq![(path, "expected at least "@ + decimal(min as nat) + " items"@)]
        } else {
            seq![]
        },
        None => seq![],
    };
    let high = match schema.spec_get_u64("maxItems"@) {
        Some(max) => if len > max {
            seq![(path, "expected at most "@ + decimal(max as nat) + " items"@)]
        } else {
            seq![]
        },
        None => seq![],
    };
    low + high
}

/// The errors of the first `n` elements, each under the schema at its position.
pub open spec fn tuple_errors(
    path: Seq<char>,
    elems: Seq<JsonValue>,
    schemas: Seq<JsonValue>,
    n: nat,
) -> Seq<(Seq<char>, Seq<char>)>
    decreases elems, n,
{
    if n == 0 || n > elems.len() || n > schemas.len() {
        seq![]
    } else {
        tuple_errors(path, elems, schemas, (n - 1) as nat) + property_errors(
            element_path(path, (n - 1) as nat),
            elems[n - 1],
            schemas[n - 1],
        )
    }
}

/// The errors of the first `n` elements, all under one schema.
pub open spec fn each_errors(path: Seq<char>, elems: Seq<JsonValue>, schema: JsonValue, n: nat) -> Seq<
    (Seq<char>, Seq<char>),
>
    decreases elems, n,
{
    if n == 0 || n > elems.len() {
        seq![]
    } else {
        each_errors(path, elems, schema, (n - 1) as nat) + property_errors(
            element_path(path, (n - 1) as nat),
            elems[n - 1],
            schema,
        )
    }
}

pub open spec fn min_nat(a: nat, b: nat) -> nat {
    if a < b {
        a
    } else {
        b
    }
}

/// The errors of `value` at `path` under `schema`, dispatched on the
/// schema's declared type. A type mismatch is one error and nothing below it
/// is checked; a schema with no known type accepts anything.
pub open spec fn property_errors(path: Seq<char>, value: JsonValue, schema: JsonValue) -> Seq<
    (Seq<char>, Seq<char>),
>
    decreases value, 0nat,
{
    let t = schema.spec_get_str("type"@);
    if t == Some("string"@) {
        match value {
            JsonValue::Str(s) => string_errors(path, s@, schema),
            _ => seq![(path, "expected string"@)],
        }
    } else if t == Some("array"@) {
        match value {
            JsonValue::Array(elems) => match schema.spec_get("items"@) {
                Some(JsonValue::Array(schemas)) => tuple_errors(
                    path,
                    elems@,
                    schemas@,
                    min_nat(elems@.len(), schemas@.len()),
                ) + bound_errors(path, elems@.len(), schema),
                Some(item) => each_errors(path, elems@, item, elems@.len()),
                None => seq![],
            },
            _ => seq![(path, "expected array"@)],
        }
    } else if t == Some("object"@) {
        match value {
            JsonValue::Object(_) => seq![],
            _ => seq![(path, "expected object"@)],
        }
    } else {
        seq![]
    }
}

fn report(errors: &mut Vec<ValidationError>, path: &str, message: String)
    ensures
        views(final(errors)@) == views(old(errors)@) + seq![(path@, message@)],
{
    let ghost m = message@;
    errors.push(ValidationError { path: String::from_str(path), message });
    assert(views(errors@) =~= views(old(errors)@) + seq![(path@, m)]);
}

/// Runs the format, pattern and minimum-length checks of a string schema on
/// `s`, given whether `s` is a valid email and what the pattern search found,
/// and appends what fails.
pub fn check_string(
    errors: &mut Vec<ValidationError>,
    path: &str,
    s: &str,
    schema: &JsonValue,
    email_valid: bool,
    pattern_found: Option<bool>,
)
    ensures
        views(final(errors)@) == views(old(errors)@) + string_checks(
            path@,
            s@,
            s.len() as nat,
            *schema,
            email_valid,
            pattern_found,
        ),
{
    let ghost start = views(errors@);
    proof {
        reveal_strlit("");
    }
    if let Some(format) = schema.get_str("format") {
        if str_eq(format.as_str(), "uri") {
            if !is_valid_uri(s) {
                report(errors, path, concat3("invalid URI \"", s, "\""));
            }
        } else if str_eq(format.as_str(), "email") {
            if !email_valid {
                report(errors, path, concat3("invalid email \"", s, "\""));
            }
        }
    }
    let ghost after_format = views(errors@);
    assert(after_format =~= start + format_errors(path@, s@, *schema, email_valid));
    if let Some(pattern) = schema.get_str("pattern") {
        if pattern_found == Some(false) {
            report(errors, path, concat3("does not match pattern ", pattern.as_str(), ""));
        }
    }
    let ghost after_pattern = views(errors@);
    assert(after_pattern =~= after_format + pattern_errors(path@, *schema, pattern_found));
    if let Some(min) = schema.get_u64("minLength") {
        if (s.len() as u64) < min {
            let digits = decimal_string(min);
            report(errors, path, concat3("string too short (min ", digits.as_str(), ")"));
        }
    }
    assert(views(errors@) =~= after_pattern + length_errors(path@, s.len() as nat, *schema));
}

fn element_path_string(path: &str, i: usize) -> (r: String)
    ensures
        r@ == element_path(path@, i as nat),
{
    let digits = decimal_string(i as u64);
    let mut r = concat3(path, "[", digits.as_str());
    r.append("]");
    r
}

/// Appends the `minItems` / `maxItems` violations of an array of `len` elements.
fn check_bounds(errors: &mut Vec<ValidationError>, path: &str, len: usize, schema: &JsonValue)
    ensures
        views(final(errors)@) == views(old(errors)@) + bound_errors(path@, len as nat, *schema),
{
    let ghost start = views(errors@);
    if let Some(min) = schema.get_u64("minItems") {
        if (len as u64) < min {
            let digits = decimal_string(min);
            report(errors, path, concat3("expected at least ", digits.as_str(), " items"));
        }
    }
    if let Some(max) = schema.get_u64("maxItems") {
        if (len as u64) > max {
            let digits = decimal_string(max);
            report(errors, path, concat3("expected at most ", digits.as_str(), " items"));
        }
    }
    assert(views(errors@) =~= start + bound_errors(path@, len as nat, *schema));
}

/// Validates `value` at `path` against `schema` and appends every violation,
/// in check order.
pub fn validate_property(
    errors: &mut Vec<ValidationError>,
    path: &str,
    value: &JsonValue,
    schema: &JsonValue,
)
    ensures
        views(final(errors)@) == views(old(errors)@) + property_errors(path@, *value, *schema),
    decreases value,
{
    proof {
        reveal_strlit("string");
        reveal_strlit("array");
        reveal_strlit("object");
        reveal_strlit("email");
    }
    let ghost start = views(errors@);
    let kind: u8 = match schema.get_str("type") {
        Some(t) => if str_eq(t.as_str(), "string") {
            1
        } else if str_eq(t.as_str(), "array") {
            2
        } else if str_eq(t.as_str(), "object") {
            3
        } else {
            0
        },
        None => 0,
    };
    if kind == 1 {
        match value {
            JsonValue::Str(st) => {
                let s = st.as_str();
                let email_valid = match schema.get_str("format") {
                    Some(f) => if str_eq(f.as_str(), "email") {
                        is_valid_email(s)
                    } else {
                        false
                    },
                    None => false,
                };
                let found = match schema.get_str("pattern") {
                    Some(p) => search(p.as_str(), s),
                    None => None,
                };
                check_string(errors, path, s, schema, email_valid, found);
                assert(format_errors(path@, s@, *schema, email_valid) == format_errors(
                    path@,
                    s@,
                    *schema,
                    email_ok(s@),
                ));
            },
            _ => report(errors, path, String::from_str("expected string")),
        }
    } else if kind == 2 {
        match value {
            JsonValue::Array(arr) => {
                match schema.get("items") {
                    Some(JsonValue::Array(schemas)) => {
                        let n: usize = if arr.len() < schemas.len() {
                            arr.len()
                        } else {
                            schemas.len()
                        };
                        let mut i: usize = 0;
                        while i < n
                            invariant
                                *value == JsonValue::Array(*arr),
                                n <= arr@.len(),
                                n <= schemas@.len(),
                                0 <= i <= n,
                                views(errors@) == start + tuple_errors(
                                    path@,
                                    arr@,
                                    schemas@,
                                    i as nat,
                                ),
                            decreases n - i,
                        {
                            let p = element_path_string(path, i);
                            assert((*value)->Array_0 == *arr);
                            assert(decreases_to!(*value => (*value)->Array_0));
                            assert(decreases_to!(*arr => arr[i as int]));
                            validate_property(errors, p.as_str(), &arr[i], &schemas[i]);
                            assert(views(errors@) =~= start + tuple_errors(
                                path@,
                                arr@,
                                schemas@,
                                (i + 1) as nat,
                            ));
                            i = i + 1;
                        }
                        check_bounds(errors, path, arr.len(), schema);
                        assert(views(errors@) =~= start + property_errors(path@, *value, *schema));
                    },
                    Some(item) => {
                        let mut i: usize = 0;
                        while i < arr.len()
                            invariant
                                *value == JsonValue::Array(*arr),
                                0 <= i <= arr@.len(),
                                views(errors@) == start + each_errors(path@, arr@, *item, i as nat),
                            decreases arr@.len() - i,
                        {
                            let p = element_path_string(path, i);
                            assert((*value)->Array_0 == *arr);
                            assert(decreases_to!(*value => (*value)->Array_0));
                            assert(decreases_to!(*arr => arr[i as int]));
                            validate_property(errors, p.as_str(), &arr[i], item);
                            assert(views(errors@) =~= start + each_errors(
                                path@,
                                arr@,
                                *item,
                                (i + 1) as nat,
                            ));
                            i = i + 1;
                        }
                    },
                    None => {},
                }
            },
            _ => report(errors, path, String::from_str("expected array")),
        }
    } else if kind == 3 {
        match value {
            JsonValue::Object(_) => {},
            _ => report(errors, path, String::from_str("expected object")),
        }
    }
    assert(views(errors@) =~= start + property_errors(path@, *value, *schema));
}

pub open spec fn unknown_message(key: Seq<char>) -> Seq<char> {
    "unknown property \""@ + key + "\""@
}

/// One error for each of the first `n` members whose key `props` lacks.
pub open spec fn unknown_errors(
    members: Seq<(String, JsonValue)>,
    props: Seq<(String, JsonValue)>,
    n: nat,
) -> Seq<(Seq<char>, Seq<char>)>
    decreases n,
{
    if n == 0 || n > members.len() {
        seq![]
    } else {
        unknown_errors(members, props, (n - 1) as nat) + if has_key(props, members[n - 1].0@) {
            seq![]
        } else {
            seq![("root"@, unknown_message(members[n - 1].0@))]
        }
    }
}

/// The errors of the first `n` declared properties that the document holds,
/// each at path `.<key>`.
pub open spec fn declared_errors(
    members: Seq<(String, JsonValue)>,
    props: Seq<(String, JsonValue)>,
    n: nat,
) -> Seq<(Seq<char>, Seq<char>)>
    decreases n,
{
    if n == 0 || n > props.len() {
        seq![]
    } else {
        declared_errors(members, props, (n - 1) as nat) + match lookup(members, props[n - 1].0@) {
            Some(v) => property_errors(member_path(seq![], props[n - 1].0@), v, props[n - 1].1),
            None => seq![],
        }
    }
}

/// The declared properties of a schema: its `properties` object.
pub open spec fn properties_of(schema: JsonValue) -> Option<Seq<(String, JsonValue)>> {
    match schema.spec_get("properties"@) {
        Some(JsonValue::Object(m)) => Some(m@),
        _ => None,
    }
}

/// Whether the schema forbids keys it does not declare.
pub open spec fn is_closed(schema: JsonValue) -> bool {
    schema.spec_get("additionalProperties"@) == Some(JsonValue::Bool(false))
}

/// The unknown-key errors of a document: none unless the schema is closed.
pub open spec fn unknown_property_errors(data: JsonValue, schema: JsonValue) -> Seq<(Seq<char>, Seq<char>)> {
    match data {
        JsonValue::Object(m) => if is_closed(schema) {
            unknown_errors(m@, properties_of(schema).unwrap(), m@.len())
        } else {
            seq![]
        },
        _ => seq![],
    }
}

/// All errors of a document: one if its root is not an object; else the
/// unknown keys, then the declared properties in schema order. Declared
/// properties that the document lacks are not errors.
pub open spec fn document_errors(data: JsonValue, schema: JsonValue) -> Seq<(Seq<char>, Seq<char>)> {
    match data {
        JsonValue::Object(m) => {
            let props = properties_of(schema).unwrap();
            unknown_property_errors(data, schema) + declared_errors(m@, props, props.len())
        },
        _ => seq![("root"@, "expected object"@)],
    }
}

/// Whether some member of `members` has the key `key`.
fn has_member(members: &Vec<(String, JsonValue)>, key: &str) -> (r: bool)
    ensures
        r == has_key(members@, key@),
{
    let mut i: usize = 0;
    while i < members.len()
        invariant
            0 <= i <= members@.len(),
            forall|j: int| 0 <= j < i ==> members@[j].0@ != key@,
        decreases members@.len() - i,
    {
        if str_eq(members[i].0.as_str(), key) {
            return true;
        }
        i = i + 1;
    }
    false
}

/// Validates a document against a schema and returns every violation.
///
/// The schema is trusted: when the document is an object, the schema must
/// hold a `properties` object.
pub fn validate(data: &JsonValue, schema: &JsonValue) -> (r: Vec<ValidationError>)
    requires
        data.is_object() ==> properties_of(*schema) is Some,
    ensures
        views(r@) == document_errors(*data, *schema),
        !data.is_object() ==> views(r@) == seq![("root"@, "expected object"@)],
{
    let mut errors: Vec<ValidationError> = Vec::new();
    let members = match data {
        JsonValue::Object(m) => m,
        _ => {
            report(&mut errors, "root", String::from_str("expected object"));
            assert(views(errors@) =~= document_errors(*data, *schema));
            return errors;
        },
    };
    let props = match schema.get("properties") {
        Some(JsonValue::Object(p)) => p,
        _ => {
            assert(false);
            return errors;
        },
    };
    assert(views(errors@) =~= seq![]);
    let closed = match schema.get("additionalProperties") {
        Some(JsonValue::Bool(b)) => !*b,
        _ => false,
    };
    if closed {
        let mut i: usize = 0;
        while i < members.len()
            invariant
                0 <= i <= members@.len(),
                views(errors@) == unknown_errors(members@, props@, i as nat),
            decreases members@.len() - i,
        {
            if !has_member(props, members[i].0.as_str()) {
                let message = concat3("unknown property \"", members[i].0.as_str(), "\"");
                report(&mut errors, "root", message);
            }
            assert(views(errors@) =~= unknown_errors(members@, props@, (i + 1) as nat));
            i = i + 1;
        }
    }
    let ghost unknown = views(errors@);
    assert(unknown == unknown_property_errors(*data, *schema));
    let mut i: usize = 0;
    while i < props.len()
        invariant
            *data == JsonValue::Object(*members),
            0 <= i <= props@.len(),
            views(errors@) == unknown + declared_errors(members@, props@, i as nat),
        decreases props@.len() - i,
    {
        let key = props[i].0.as_str();
        if let Some(v) = data.get(key) {
            let path = concat3(".", key, "");
            proof {
                reveal_strlit("");
                assert(path@ =~= member_path(seq![], key@));
            }
            validate_property(&mut errors, path.as_str(), v, &props[i].1);
        }
        assert(views(errors@) =~= unknown + declared_errors(members@, props@, (i + 1) as nat));
        i = i + 1;
    }
    errors
}

} // verus!
