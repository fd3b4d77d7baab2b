//! The message exchanged with the page over the websocket, the identifiers
//! that tie a request to its reply, and the JSON texts that messages carry.
use vstd::prelude::*;

use crate::text::views;

verus! {

/// A message between the program and the page.
///
/// `Params` and `Data` hold JSON values as their compact JSON text
/// (`null` for a missing value); the other fields are plain strings.
#[derive(Clone, Debug)]
#[allow(non_snake_case)]
pub struct MyMessage {
    pub Typ: String,
    pub FuncName: Vec<String>,
    pub Params: Vec<String>,
    pub Id: String,
    pub Data: String,
}

/// What a message holds, as mathematical values.
pub struct MessageView {
    pub typ: Seq<char>,
    pub func_name: Seq<Seq<char>>,
    pub params: Seq<Seq<char>>,
    pub id: Seq<char>,
    pub data: Seq<char>,
}

impl View for MyMessage {
    type V = MessageView;

    open spec fn view(&self) -> MessageView {
        MessageView {
            typ: self.Typ@,
            func_name: views(self.FuncName@),
            params: views(self.Params@),
            id: self.Id@,
            data: self.Data@,
        }
    }
}

/// The JSON text of the null value.
pub open spec fn null_text() -> Seq<char> {
    "null"@
}

/// The message with every field empty and no data.
pub open spec fn empty_message() -> MessageView {
    MessageView {
        typ: Seq::empty(),
        func_name: Seq::empty(),
        params: Seq::empty(),
        id: Seq::empty(),
        data: null_text(),
    }
}

/// The message that asks the page to expose `name` under the `xz` object.
pub open spec fn bind_request(id: Seq<char>, name: Seq<char>) -> MessageView {
    MessageView {
        typ: "bind"@,
        func_name: seq!["xz"@, name],
        params: Seq::empty(),
        id: id,
        data: null_text(),
    }
}

/// The answer to the page's call `id`, carrying the JSON text `data`.
pub open spec fn reply_to(id: Seq<char>, data: Seq<char>) -> MessageView {
    MessageView { id: id, data: data, ..empty_message() }
}

/// A request of kind `typ` whose data is the JSON text `data`.
pub open spec fn script_request(typ: Seq<char>, id: Seq<char>, data: Seq<char>) -> MessageView {
    MessageView { typ: typ, id: id, data: data, ..empty_message() }
}

impl Default for MyMessage {
    fn default() -> (m: MyMessage)
        ensures
            m@ == empty_message(),
    {
        let m = MyMessage {
            Typ: String::new(),
            FuncName: Vec::new(),
            Params: Vec::new(),
            Id: String::new(),
            Data: "null".to_owned(),
        };
        assert(m@.func_name =~= Seq::<Seq<char>>::empty());
        assert(m@.params =~= Seq::<Seq<char>>::empty());
        m
    }
}

impl MyMessage {
    /// Builds the message that binds `name` on the page.
    pub fn bind_request(id: String, name: String) -> (m: MyMessage)
        ensures
            m@ == bind_request(id@, name@),
    {
        let mut func_name: Vec<String> = Vec::new();
        func_name.push("xz".to_owned());
        func_name.push(name);
        let m = MyMessage {
            Typ: "bind".to_owned(),
            FuncName: func_name,
            Params: Vec::new(),
            Id: id,
            Data: "null".to_owned(),
        };
        assert(m@.func_name =~= bind_request(id@, name@).func_name);
        assert(m@.params =~= Seq::<Seq<char>>::empty());
        m
    }

    /// Builds the answer to the call `id` carrying the JSON text `data`.
    pub fn reply(id: String, data: String) -> (m: MyMessage)
        ensures
            m@ == reply_to(id@, data@),
    {
        let m = MyMessage {
            Typ: String::new(),
            FuncName: Vec::new(),
            Params: Vec::new(),
            Id: id,
            Data: data,
        };
        assert(m@.func_name =~= Seq::<Seq<char>>::empty());
        assert(m@.params =~= Seq::<Seq<char>>::empty());
        m
    }

    /// Builds a request of kind `typ` carrying the JSON text `data`.
    pub fn script(typ: String, id: String, data: String) -> (m: MyMessage)
        ensures
            m@ == script_request(typ@, id@, data@),
    {
        let m = MyMessage {
            Typ: typ,
            FuncName: Vec::new(),
            Params: Vec::new(),
            Id: id,
            Data: data,
        };
        assert(m@.func_name =~= Seq::<Seq<char>>::empty());
        assert(m@.params =~= Seq::<Seq<char>>::empty());
        m
    }
}

/// Whether `s` is a version-4 UUID written in hyphenated lower-case form:
/// 36 characters, hyphens at positions 8, 13, 18 and 23, hexadecimal digits
/// elsewhere, the version digit `4` at position 14 and one of the variant
/// digits `8`, `9`, `a`, `b` at position 19.
pub open spec fn is_request_id(s: Seq<char>) -> bool {
    &&& s.len() == 36
    &&& forall|i: int|
        0 <= i < 36 ==> if i == 8 || i == 13 || i == 18 || i == 23 {
            s[i] == '-'
        } else {
            ('0' <= #[trigger] s[i] <= '9') || ('a' <= s[i] <= 'f')
        }
    &&& s[14] == '4'
    &&& (s[19] == '8' || s[19] == '9' || s[19] == 'a' || s[19] == 'b')
}

/// A fresh random identifier for a request: `uuid::Uuid::new_v4()` written
/// out by `to_string`, which the uuid crate formats in its hyphenated
/// lower-case form; `new_v4` sets the version bits to 4 and the variant bits
/// to `10`. The value is random, so nothing is said of which one, nor that two
/// calls give different ones.
#[verifier::external_body]
pub(crate) fn new_request_id() -> (id: String)
    ensures
        is_request_id(id@),
{
    uuid::Uuid::new_v4().to_string()
}

/// The hexadecimal digit of `d` (`0 <= d < 16`), lower case.
pub open spec fn hex_digit(d: nat) -> char {
    if d < 10 {
        (48 + d) as char
    } else {
        (87 + d) as char
    }
}

/// How serde_json writes the character `c` inside a JSON string: quote and
/// backslash behind a backslash, the usual short escapes for backspace, form
/// feed, line feed, carriage return and tab, other control characters as
/// `\u00` and two hexadecimal digits, every other character as it is.
pub open spec fn json_escape_char(c: char) -> Seq<char> {
    let n = c as u32;
    if c == '"' {
        seq!['\\', '"']
    } else if c == '\\' {
        seq!['\\', '\\']
    } else if n == 8 {
        seq!['\\', 'b']
    } else if n == 12 {
        seq!['\\', 'f']
    } else if n == 10 {
        seq!['\\', 'n']
    } else if n == 13 {
        seq!['\\', 'r']
    } else if n == 9 {
        seq!['\\', 't']
    } else if n < 32 {
        seq!['\\', 'u', '0', '0', hex_digit(n as nat / 16), hex_digit(n as nat % 16)]
    } else {
        seq![c]
    }
}

/// The characters of `s`, each written as [`json_escape_char`] writes it.
pub open spec fn json_escape(s: Seq<char>) -> Seq<char>
    decreases s.len(),
{
    if s.len() == 0 {
        Seq::empty()
    } else {
        json_escape_char(s[0]) + json_escape(s.subrange(1, s.len() as int))
    }
}

/// The compact JSON text of the string value `s`: a quote, the escaped
/// characters of `s`, a quote.
pub open spec fn json_string_text(s: Seq<char>) -> Seq<char> {
    seq!['"'] + json_escape(s) + seq!['"']
}

/// `serde_json::to_string` on a string slice: the JSON string literal of `s`.
/// The crate writes a quote, the characters of `s` with the escapes of its
/// escape table (quotes, backslashes and the control characters below 0x20),
/// and a closing quote.
#[verifier::external_body]
pub(crate) fn json_string(s: &str) -> (r: String)
    ensures
        r@ == json_string_text(s@),
{
    serde_json::to_string(s).unwrap()
}

/// A bind request is of kind `bind`, names `xz` then the bound function,
/// carries no parameters and the null value, under the given id.
pub proof fn lemma_bind_request_shape(id: Seq<char>, name: Seq<char>)
    ensures
        bind_request(id, name).typ == "bind"@,
        bind_request(id, name).func_name.len() == 2,
        bind_request(id, name).func_name[0] == "xz"@,
        bind_request(id, name).func_name[1] == name,
        bind_request(id, name).params.len() == 0,
        bind_request(id, name).id == id,
        bind_request(id, name).data == "null"@,
{
}

/// A reply has no kind, names nothing, carries no parameters, and bears the
/// call's id and the returned value.
pub proof fn lemma_reply_shape(id: Seq<char>, data: Seq<char>)
    ensures
        reply_to(id, data).typ.len() == 0,
        reply_to(id, data).func_name.len() == 0,
        reply_to(id, data).params.len() == 0,
        reply_to(id, data).id == id,
        reply_to(id, data).data == data,
{
}

} // verus!
