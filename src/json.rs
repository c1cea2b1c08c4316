use vstd::prelude::*;
use vstd::string::*;

verus! {

/// A JSON value built by the kernel for the messages it sends.
pub enum Json {
    Null,
    Bool(bool),
    Int(i64),
    Str(String),
    Array(Vec<Json>),
    /// Members in the order in which they are written.
    Object(Vec<(String, Json)>),
}

/// The JSON string literal, quotes and escapes included, that stands for the
/// text `s`.
pub uninterp spec fn json_quoted_of(s: Seq<char>) -> Seq<char>;

/// Whether `text` is one JSON value.
pub uninterp spec fn is_json_of(text: Seq<char>) -> bool;

/// The string that the member `key` of the JSON object `text` holds; `None`
/// when `text` is not an object, has no such member, or the member is not a
/// string.
pub uninterp spec fn json_member_str_of(text: Seq<char>, key: Seq<char>) -> Option<Seq<char>>;

/// The compact JSON text of the value `text` with its member `key` set to
/// the string `value` (a value that is not an object becomes an object).
pub uninterp spec fn json_with_member_str_of(text: Seq<char>, key: Seq<char>, value: Seq<char>) -> Seq<
    char,
>;

/// The character of the decimal digit `d`.
pub open spec fn digit_char(d: nat) -> char {
    ((48 + d) as u8) as char
}

/// The decimal digits of `n`, most significant first, without leading zeros.
pub open spec fn digits_of(n: nat) -> Seq<char>
    decreases n,
{
    if n < 10 {
        seq![digit_char(n)]
    } else {
        digits_of(n / 10).push(digit_char(n % 10))
    }
}

/// The decimal text of `n`, with a leading `-` when it is negative.
pub open spec fn int_text(n: int) -> Seq<char> {
    if n < 0 {
        seq!['-'] + digits_of((-n) as nat)
    } else {
        digits_of(n as nat)
    }
}

/// The compact JSON text of `v`: no whitespace, members and elements in
/// order, separated by commas.
pub open spec fn json_text(v: Json) -> Seq<char>
    decreases v, 0nat,
{
    match v {
        Json::Null => seq!['n', 'u', 'l', 'l'],
        Json::Bool(b) => if b {
            seq!['t', 'r', 'u', 'e']
        } else {
            seq!['f', 'a', 'l', 's', 'e']
        },
        Json::Int(n) => int_text(n as int),
        Json::Str(s) => json_quoted_of(s@),
        Json::Array(items) => seq!['['] + items_text(items, items@.len() as nat) + seq![']'],
        Json::Object(members) => seq!['{'] + members_text(members, members@.len() as nat) + seq![
            '}',
        ],
    }
}

/// The texts of the first `n` elements, separated by commas.
pub open spec fn items_text(items: Vec<Json>, n: nat) -> Seq<char>
    decreases items, n,
{
    if n == 0 || n > items@.len() {
        Seq::empty()
    } else if n == 1 {
        json_text(items@[0])
    } else {
        items_text(items, (n - 1) as nat) + seq![','] + json_text(items@[n - 1])
    }
}

/// The texts `"name":value` of the first `n` members, separated by commas.
pub open spec fn members_text(members: Vec<(String, Json)>, n: nat) -> Seq<char>
    decreases members, n,
{
    if n == 0 || n > members@.len() {
        Seq::empty()
    } else if n == 1 {
        member_text(members@[0].0@, members@[0].1)
    } else {
        members_text(members, (n - 1) as nat) + seq![','] + member_text(
            members@[n - 1].0@,
            members@[n - 1].1,
        )
    }
}

/// The text `"name":value` of one member.
pub open spec fn member_text(name: Seq<char>, value: Json) -> Seq<char>
    decreases value, 1nat,
{
    json_quoted_of(name) + seq![':'] + json_text(value)
}

/// Relies on json::stringify on a `&str`: the JSON string literal of `s`.
#[verifier::external_body]
fn quote(s: &str) -> (r: String)
    ensures
        r@ == json_quoted_of(s@),
{
    json::stringify(s)
}

/// Relies on the `Display` of `i64` (via `to_string`): optional minus sign,
/// then the decimal digits without leading zeros.
#[verifier::external_body]
pub(crate) fn int_to_text(n: i64) -> (r: String)
    ensures
        r@ == int_text(n as int),
{
    n.to_string()
}

/// Relies on json::parse: whether `text` parses as a JSON value.
#[verifier::external_body]
pub(crate) fn json_is_valid(text: &str) -> (r: bool)
    ensures
        r == is_json_of(text@),
{
    json::parse(text).is_ok()
}

/// Relies on json::parse, `Index<&str>` and `as_str`: the string held by the
/// member `key` of the object `text`.
#[verifier::external_body]
pub(crate) fn json_member_str(text: &str, key: &str) -> (r: Option<String>)
    ensures
        match r {
            Some(s) => json_member_str_of(text@, key@) == Some(s@),
            None => json_member_str_of(text@, key@) is None,
        },
{
    match json::parse(text) {
        Ok(v) => v[key].as_str().map(|s| s.to_string()),
        Err(_) => None,
    }
}

/// Relies on json::parse, `IndexMut<&str>` and `dump`: `text` with its member
/// `key` set to the string `value`. `IndexMut` replaces a value that is not
/// an object by an empty object first and keeps the other members, so the
/// result holds `value` under `key` and the other members' strings as they
/// were.
#[verifier::external_body]
pub(crate) fn json_with_member_str(text: &str, key: &str, value: &str) -> (r: String)
    ensures
        r@ == json_with_member_str_of(text@, key@, value@),
        is_json_of(r@),
        json_member_str_of(r@, key@) == Some(value@),
        forall|k: Seq<char>|
            k != key@ ==> #[trigger] json_member_str_of(r@, k) == json_member_str_of(text@, k),
{
    let mut v = json::parse(text).unwrap_or(json::JsonValue::Null);
    v[key] = json::JsonValue::from(value);
    v.dump()
}

impl Json {
    /// The compact JSON text of this value.
    pub fn dump(&self) -> (r: String)
        ensures
            r@ == json_text(*self),
        decreases self,
    {
        match self {
            Json::Null => {
                proof {
                    reveal_strlit("null");
                }
                String::from_str("null")
            },
            Json::Bool(b) => {
                if *b {
                    proof {
                        reveal_strlit("true");
                    }
                    String::from_str("true")
                } else {
                    proof {
                        reveal_strlit("false");
                    }
                    String::from_str("false")
                }
            },
            Json::Int(n) => int_to_text(*n),
            Json::Str(s) => quote(s.as_str()),
            Json::Array(items) => {
                proof {
                    reveal_strlit("[");
                    reveal_strlit("]");
                    reveal_strlit(",");
                }
                let mut r = String::from_str("[");
                let mut i: usize = 0;
                while i < items.len()
                    invariant
                        i <= items@.len(),
                        *self == Json::Array(*items),
                        r@ == seq!['['] + items_text(*items, i as nat),
                    decreases items@.len() - i,
                {
                    proof {
                        reveal_strlit(",");
                        assert(decreases_to!(*self => self->Array_0));
                        assert(decreases_to!(*items => items@));
                        assert(decreases_to!(items@ => items@[i as int]));
                    }
                    let ghost before = r@;
                    if i > 0 {
                        r.append(",");
                    }
                    let t = items[i].dump();
                    r.append(t.as_str());
                    proof {
                        if i == 0 {
                            assert(items_text(*items, 0) =~= Seq::<char>::empty());
                            assert(r@ =~= seq!['['] + items_text(*items, 1));
                        } else {
                            assert(r@ =~= before + seq![','] + json_text(items@[i as int]));
                        }
                    }
                    i = i + 1;
                }
                r.append("]");
                r
            },
            Json::Object(members) => {
                proof {
                    reveal_strlit("{");
                    reveal_strlit("}");
                    reveal_strlit(",");
                    reveal_strlit(":");
                }
                let mut r = String::from_str("{");
                let mut i: usize = 0;
                while i < members.len()
                    invariant
                        i <= members@.len(),
                        *self == Json::Object(*members),
                        r@ == seq!['{'] + members_text(*members, i as nat),
                    decreases members@.len() - i,
                {
                    proof {
                        reveal_strlit(",");
                        reveal_strlit(":");
                    }
                    let ghost before = r@;
                    if i > 0 {
                        r.append(",");
                    }
                    let ghost sep = r@;
                    let name = quote(members[i].0.as_str());
                    r.append(name.as_str());
                    r.append(":");
                    proof {
                        assert(decreases_to!(*self => self->Object_0));
                        assert(decreases_to!(*members => members@));
                        assert(decreases_to!(members@ => members@[i as int]));
                        assert(decreases_to!(members@[i as int] => members@[i as int].1));
                    }
                    let t = members[i].1.dump();
                    r.append(t.as_str());
                    proof {
                        let m = member_text(members@[i as int].0@, members@[i as int].1);
                        assert(r@ =~= sep + m);
                        if i == 0 {
                            assert(members_text(*members, 0) =~= Seq::<char>::empty());
                            assert(r@ =~= seq!['{'] + members_text(*members, 1));
                        } else {
                            assert(r@ =~= before + seq![','] + m);
                        }
                    }
                    i = i + 1;
                }
                r.append("}");
                r
            },
        }
    }
}

} // verus!
