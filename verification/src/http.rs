//! The file server: which page a request line asks for, the built-in page
//! that connects back over the websocket, and the framing of the answer.
use vstd::prelude::*;
use vstd::slice::slice_subrange;
use vstd::slice::slice_to_vec;
use vstd::string::*;
use vstd::utf8::valid_utf8;

use crate::text::{
    ascii_bytes, decimal, decimal_bytes, extend_bytes, is_numeral, lemma_decimal_reads_back,
    numeral_value, replace_all, replace_bytes,
};

verus! {

/// The byte of a space.
pub const SPACE: u8 = 32u8;

/// The byte of a question mark.
pub const QUESTION: u8 = 63u8;

/// The byte of a slash.
pub const SLASH: u8 = 47u8;

/// The page the server builds itself; `{port}` stands for the websocket port.
pub const DEFAULT_HTML: &'static str = r#"
<html>
<title>%s</title>
<body style="margin:0;padding:0;background-color:#ffffff;">
<iframe src="" style="border:medium none;width:100vw;height:100vh;" frameborder="0" id="iframe" style="margin:0;padding:0;"></iframe>
</body>
</html>
<script>
    var wsServer = 'ws://127.0.0.1:{port}/ws';
    var websocket;
    var requestMap = {};
    var iframe;
    window.onload = function () {
        iframe = document.getElementById("iframe");
        startWebsocket();
    }
    function startWebsocket() {
        websocket = new WebSocket(wsServer);
        websocket.onopen = function (evt) {
            console.log(evt)
        };
        websocket.onclose = function (evt) {
            setTimeout(() => {
                startWebsocket();
            }, 1000)
        };
        websocket.onmessage = function (evt) {
            let msg = JSON.parse(evt.data);
            if (msg.Typ == "nav") {
                let r = eval(msg.Data);
                setTimeout(() => {
                    msg.Data = r;
                    websocket.send2(msg);
                }, 1000)

            } else if (msg.Typ == "eval") {
                let r = iframe.contentWindow.eval(msg.Data);
                if(!r)r="";
                msg["Data"] = r;
                websocket.send2(msg);
            } else if (msg.Typ == "bind") {
                let fs = msg.FuncName;
                if (fs.length != 2) {
                    return;
                }
                if(!iframe.contentWindow[fs[0]])iframe.contentWindow[fs[0]] = {};
                iframe.contentWindow[fs[0]][fs[1]] = function () {
                    msg.FuncName=fs;
                    msg.Typ="call";
                    msg.Id = Date.now() + "";
                    msg.Params = [];
                    //let data = {FuncName: fs, Params: []};
                    let data = msg;
                    let callback = null;
                    if (arguments.length > 0) {
                        for (let k in arguments) {
                            if (k == arguments.length - 1 && typeof arguments[k] === "function") {
                                callback = arguments[k];
                            } else {
                                data.Params.push(arguments[k])
                            }

                        }
                    }
                    websocket.send2(data, callback)
                }
                websocket.send2(msg);
            } else if (msg.Typ == "RemoveBind") {
                let fs = msg.FuncName;
                if (fs.length != 2) {
                    return;
                }
                iframe.contentWindow[fs[0]] = {};
            } else if (requestMap[msg.Id]) {
                requestMap[msg.Id](msg.Data)
            }
            
        };

        websocket.onerror = function (evt, e) {
            console.log('Error occured: ' + evt.data);
        };
        websocket.send2 = function (data, f) {
            console.log("send2", data)
            if (!data.Id) data.Id = Date.now() + "";
            if (f) requestMap[data.Id] = f;
            websocket.send(JSON.stringify(data));
        }
    }

</script>
"#;

/// The position of the first `b` in `s`, or the length of `s` when there is none.
pub open spec fn first_at(s: Seq<u8>, b: u8) -> int
    decreases s.len(),
{
    if s.len() == 0 {
        0
    } else if s[0] == b {
        0
    } else {
        1 + first_at(s.subrange(1, s.len() as int), b)
    }
}

/// `s` without its leading slashes.
pub open spec fn trim_slashes(s: Seq<u8>) -> Seq<u8>
    decreases s.len(),
{
    if s.len() > 0 && s[0] == SLASH {
        trim_slashes(s.subrange(1, s.len() as int))
    } else {
        s
    }
}

/// The second space-separated field of a request line: the request target.
pub open spec fn request_target(line: Seq<u8>) -> Seq<u8> {
    let rest = line.subrange(first_at(line, SPACE) + 1, line.len() as int);
    rest.subrange(0, first_at(rest, SPACE))
}

/// The file path a request line asks for: its target without leading slashes.
pub open spec fn requested_path(line: Seq<u8>) -> Seq<u8> {
    trim_slashes(request_target(line))
}

/// The page part of a path: what stands before the first question mark.
pub open spec fn page_name(path: Seq<u8>) -> Seq<u8> {
    path.subrange(0, first_at(path, QUESTION))
}

/// The name of the page the server builds itself.
pub open spec fn builtin_name() -> Seq<u8> {
    "DEFAULT.html".spec_bytes()
}

/// The built-in page for a server on `port`: the template with the websocket
/// port `port + 1` put in for `{port}`.
pub open spec fn builtin_page(port: nat) -> Seq<u8> {
    replace_all(DEFAULT_HTML.spec_bytes(), "{port}".spec_bytes(), ascii_bytes(decimal(port + 1)))
}

/// What the server answers with.
pub enum Page {
    /// The built-in page, ready to send.
    Builtin(Vec<u8>),
    /// The file at this path, relative to the served directory.
    File(Vec<u8>),
}

/// A [`Page`] as mathematical values.
pub enum PageView {
    Builtin(Seq<u8>),
    File(Seq<u8>),
}

impl View for Page {
    type V = PageView;

    open spec fn view(&self) -> PageView {
        match self {
            Page::Builtin(b) => PageView::Builtin(b@),
            Page::File(p) => PageView::File(p@),
        }
    }
}

/// The page answering `line` on a server at `port`.
pub open spec fn page_for(line: Seq<u8>, port: nat) -> PageView {
    let path = requested_path(line);
    if page_name(path) == builtin_name() {
        PageView::Builtin(builtin_page(port))
    } else {
        PageView::File(path)
    }
}

/// Whether a server at `port` can answer `line`: the line has a target, and
/// the built-in page needs a websocket port above `port`.
pub open spec fn servable(line: Seq<u8>, port: nat) -> bool {
    &&& line.contains(SPACE)
    &&& page_name(requested_path(line)) == builtin_name() ==> port + 1 <= u16::MAX
}

/// The head of an answer whose body has `len` bytes.
pub open spec fn response_head(len: nat) -> Seq<u8> {
    "HTTP/1.1 200 OK\r\n".spec_bytes() + "Server: Rust\r\n".spec_bytes()
        + "Content-Type: text/html;charset=utf-8\r\n".spec_bytes() + "Content-Length: ".spec_bytes()
        + ascii_bytes(decimal(len)) + "\r\n".spec_bytes() + "\r\n".spec_bytes()
}

proof fn lemma_first_at_is(s: Seq<u8>, b: u8, i: int)
    requires
        0 <= i <= s.len(),
        forall|j: int| 0 <= j < i ==> s[j] != b,
        i == s.len() || s[i] == b,
    ensures
        first_at(s, b) == i,
    decreases s.len(),
{
    if s.len() > 0 && s[0] != b {
        let t = s.subrange(1, s.len() as int);
        assert forall|j: int| 0 <= j < i - 1 implies t[j] != b by {
            assert(t[j] == s[j + 1]);
        }
        lemma_first_at_is(t, b, i - 1);
    }
}

/// The bounds of `first_at`, and that it finds `b` when there is one.
pub proof fn lemma_first_at_bounds(s: Seq<u8>, b: u8)
    ensures
        0 <= first_at(s, b) <= s.len(),
        forall|j: int| 0 <= j < first_at(s, b) ==> s[j] != b,
        first_at(s, b) < s.len() <==> s.contains(b),
        first_at(s, b) < s.len() ==> s[first_at(s, b)] == b,
    decreases s.len(),
{
    if s.len() > 0 && s[0] != b {
        let t = s.subrange(1, s.len() as int);
        lemma_first_at_bounds(t, b);
        assert forall|j: int| 0 <= j < first_at(s, b) implies s[j] != b by {
            if j > 0 {
                assert(s[j] == t[j - 1]);
            }
        }
        if s.contains(b) {
            let k = choose|k: int| 0 <= k < s.len() && s[k] == b;
            assert(t[k - 1] == b);
        }
        if t.contains(b) {
            let k = choose|k: int| 0 <= k < t.len() && t[k] == b;
            assert(s[k + 1] == b);
        }
    } else if s.len() > 0 {
        assert(s[0] == b);
    }
}

/// The position of the first `b` in `s` at or after `from`, or the length.
fn index_of(s: &[u8], from: usize, b: u8) -> (i: usize)
    requires
        from <= s@.len(),
    ensures
        from + first_at(s@.subrange(from as int, s@.len() as int), b) == i,
        i <= s@.len(),
{
    let mut i = from;
    while i < s.len() && s[i] != b
        invariant
            from <= i <= s@.len(),
            forall|j: int| from <= j < i ==> s@[j] != b,
        decreases s@.len() - i,
    {
        i = i + 1;
    }
    proof {
        let t = s@.subrange(from as int, s@.len() as int);
        assert forall|j: int| 0 <= j < i - from implies t[j] != b by {
            assert(t[j] == s@[from + j]);
        }
        lemma_first_at_is(t, b, i - from);
    }
    i
}

proof fn lemma_trim_slashes_is(s: Seq<u8>, k: int)
    requires
        0 <= k <= s.len(),
        forall|j: int| 0 <= j < k ==> s[j] == SLASH,
        k == s.len() || s[k] != SLASH,
    ensures
        trim_slashes(s) == s.subrange(k, s.len() as int),
    decreases s.len(),
{
    if k > 0 {
        let t = s.subrange(1, s.len() as int);
        assert forall|j: int| 0 <= j < k - 1 implies t[j] == SLASH by {
            assert(t[j] == s[j + 1]);
        }
        lemma_trim_slashes_is(t, k - 1);
        assert(t.subrange(k - 1, t.len() as int) =~= s.subrange(k, s.len() as int));
    } else {
        assert(s.subrange(0, s.len() as int) =~= s);
    }
}

/// The path that `line` asks for.
fn request_path(line: &[u8]) -> (p: Vec<u8>)
    requires
        line@.contains(SPACE),
    ensures
        p@ == requested_path(line@),
{
    proof {
        lemma_first_at_bounds(line@, SPACE);
        assert(line@.subrange(0, line@.len() as int) =~= line@);
    }
    let sp = index_of(line, 0, SPACE);
    assert(sp == first_at(line@, SPACE));
    assert(sp < line@.len());
    assert(sp < line.len());
    let start = sp + 1;
    let ghost rest = line@.subrange(start as int, line@.len() as int);
    proof {
        lemma_first_at_bounds(rest, SPACE);
    }
    let end = index_of(line, start, SPACE);
    let mut k = start;
    while k < end && line[k] == SLASH
        invariant
            start <= k <= end <= line@.len(),
            forall|j: int| start <= j < k ==> line@[j] == SLASH,
        decreases end - k,
    {
        k = k + 1;
    }
    proof {
        let target = rest.subrange(0, end - start);
        assert forall|j: int| 0 <= j < k - start implies target[j] == SLASH by {
            assert(target[j] == line@[start + j]);
        }
        lemma_trim_slashes_is(target, k - start);
        assert(target.subrange(k - start, target.len() as int) =~= line@.subrange(k as int, end as int));
    }
    slice_to_vec(slice_subrange(line, k, end))
}

/// Whether `path` names the built-in page.
fn names_builtin(path: &[u8]) -> (b: bool)
    ensures
        b == (page_name(path@) == builtin_name()),
{
    proof {
        assert(path@.subrange(0, path@.len() as int) =~= path@);
    }
    let q = index_of(path, 0, QUESTION);
    assert(q == first_at(path@, QUESTION));
    let name = slice_subrange(path, 0, q);
    assert(name@ == page_name(path@));
    let want = "DEFAULT.html".as_bytes();
    assert(want@ == builtin_name());
    if name.len() != want.len() {
        return false;
    }
    let mut i: usize = 0;
    while i < name.len()
        invariant
            name@.len() == want@.len(),
            name@ == page_name(path@),
            want@ == builtin_name(),
            i <= name@.len(),
            forall|j: int| 0 <= j < i ==> name@[j] == want@[j],
        decreases name@.len() - i,
    {
        if name[i] != want[i] {
            assert(name@[i as int] != want@[i as int]);
            return false;
        }
        i = i + 1;
    }
    assert(name@ =~= want@);
    true
}

/// The unit file server.
#[derive(Clone, Copy)]
pub struct FileHttpManger {}

impl FileHttpManger {
    /// A file server.
    pub fn new() -> (s: FileHttpManger)
        ensures
            s == (FileHttpManger {}),
    {
        FileHttpManger {}
    }

    /// Whether a server at `port` can answer the request line `line`.
    pub fn can_serve(line: &[u8], port: u16) -> (b: bool)
        ensures
            b == servable(line@, port as nat),
    {
        let mut i: usize = 0;
        while i < line.len()
            invariant
                i <= line@.len(),
                forall|j: int| 0 <= j < i ==> line@[j] != SPACE,
            decreases line@.len() - i,
        {
            if line[i] == SPACE {
                assert(line@[i as int] == SPACE);
                return port < 65535 || !names_builtin(&request_path(line));
            }
            i = i + 1;
        }
        false
    }

    /// The page answering the request line `line` on a server at `port`: the
    /// built-in page for `DEFAULT.html` (whatever query follows), otherwise
    /// the requested file.
    pub fn serve(line: &[u8], port: u16) -> (p: Page)
        requires
            servable(line@, port as nat),
        ensures
            p@ == page_for(line@, port as nat),
    {
        let path = request_path(line);
        if names_builtin(path.as_slice()) {
            Page::Builtin(Self::builtin(port))
        } else {
            Page::File(path)
        }
    }

    /// The built-in page for a server at `port`.
    pub fn builtin(port: u16) -> (b: Vec<u8>)
        requires
            port < 65535,
        ensures
            b@ == builtin_page(port as nat),
    {
        let ws_port = decimal_bytes((port + 1) as u64);
        proof {
            reveal_strlit("{port}");
            assert(is_ascii("{port}"));
            assert("{port}".spec_bytes().len() == 6);
        }
        replace_bytes(DEFAULT_HTML.as_bytes(), "{port}".as_bytes(), ws_port.as_slice())
    }

    /// The answer carrying `contents`, which must be UTF-8 text: status,
    /// server, content type, the length of `contents` in bytes, a blank line,
    /// then `contents`.
    pub fn response(contents: &[u8]) -> (r: Vec<u8>)
        requires
            valid_utf8(contents@),
        ensures
            r@ == response_head(contents@.len()) + contents@,
            exists|d: Seq<char>|
                #![trigger numeral_value(d)]
                is_numeral(d) && numeral_value(d) == contents@.len() && r@ == "HTTP/1.1 200 OK\r\n".spec_bytes() + "Server: Rust\r\n".spec_bytes()
                + "Content-Type: text/html;charset=utf-8\r\n".spec_bytes()
                + "Content-Length: ".spec_bytes() + ascii_bytes(d) + "\r\n".spec_bytes()
                + "\r\n".spec_bytes() + contents@,
    {
        proof {
            lemma_decimal_reads_back(contents@.len());
            assert(numeral_value(decimal(contents@.len())) == contents@.len());
        }
        let mut r: Vec<u8> = Vec::new();
        extend_bytes(&mut r, "HTTP/1.1 200 OK\r\n".as_bytes());
        extend_bytes(&mut r, "Server: Rust\r\n".as_bytes());
        extend_bytes(&mut r, "Content-Type: text/html;charset=utf-8\r\n".as_bytes());
        extend_bytes(&mut r, "Content-Length: ".as_bytes());
        let n = decimal_bytes(contents.len() as u64);
        extend_bytes(&mut r, n.as_slice());
        extend_bytes(&mut r, "\r\n".as_bytes());
        extend_bytes(&mut r, "\r\n".as_bytes());
        extend_bytes(&mut r, contents);
        r
    }
}

proof fn lemma_first_at_after(s: Seq<u8>, t: Seq<u8>, b: u8)
    requires
        !s.contains(b),
    ensures
        first_at(s + t, b) == s.len() + first_at(t, b),
    decreases s.len(),
{
    if s.len() > 0 {
        assert(s[0] != b) by {
            assert(s[0] == s[0]);
        }
        let s1 = s.subrange(1, s.len() as int);
        assert(!s1.contains(b)) by {
            if s1.contains(b) {
                let k = choose|k: int| 0 <= k < s1.len() && s1[k] == b;
                assert(s[k + 1] == b);
            }
        }
        lemma_first_at_after(s1, t, b);
        assert((s + t).subrange(1, (s + t).len() as int) =~= s1 + t);
    } else {
        assert(s + t =~= t);
    }
}

/// The target of a request line is its second field: for a line made of a
/// method, a space, a target and optionally a space and a version (method and
/// target holding no space), the target is the one given.
pub proof fn lemma_request_target(method: Seq<u8>, target: Seq<u8>, version: Seq<u8>)
    requires
        !method.contains(SPACE),
        !target.contains(SPACE),
    ensures
        request_target(method + seq![SPACE] + target + seq![SPACE] + version) == target,
        request_target(method + seq![SPACE] + target) == target,
{
    let line = method + seq![SPACE] + target + seq![SPACE] + version;
    let tail = seq![SPACE] + target + seq![SPACE] + version;
    assert(line =~= method + tail);
    lemma_first_at_after(method, tail, SPACE);
    let rest = line.subrange(method.len() + 1int, line.len() as int);
    assert(rest =~= target + (seq![SPACE] + version));
    lemma_first_at_after(target, seq![SPACE] + version, SPACE);
    assert(rest.subrange(0, target.len() as int) =~= target);
    let line2 = method + seq![SPACE] + target;
    assert(line2 =~= method + (seq![SPACE] + target));
    lemma_first_at_after(method, seq![SPACE] + target, SPACE);
    let rest2 = line2.subrange(method.len() + 1int, line2.len() as int);
    assert(rest2 =~= target + Seq::<u8>::empty());
    lemma_first_at_after(target, Seq::<u8>::empty(), SPACE);
    assert(rest2.subrange(0, target.len() as int) =~= target);
}

/// The page part of a path ends at the first question mark: a name holding no
/// question mark, followed by `?` and any query, names that page.
pub proof fn lemma_page_name(name: Seq<u8>, query: Seq<u8>)
    requires
        !name.contains(QUESTION),
    ensures
        page_name(name + seq![QUESTION] + query) == name,
        page_name(name) == name,
{
    let path = name + seq![QUESTION] + query;
    assert(path =~= name + (seq![QUESTION] + query));
    lemma_first_at_after(name, seq![QUESTION] + query, QUESTION);
    assert(path.subrange(0, name.len() as int) =~= name);
    assert(name =~= name + Seq::<u8>::empty());
    lemma_first_at_after(name, Seq::<u8>::empty(), QUESTION);
    assert(name.subrange(0, name.len() as int) =~= name);
}

/// Leading slashes do not belong to the requested path.
pub proof fn lemma_trim_one_slash(rest: Seq<u8>)
    requires
        rest.len() == 0 || rest[0] != SLASH,
    ensures
        trim_slashes(seq![SLASH] + rest) == rest,
{
    let s = seq![SLASH] + rest;
    assert(s.subrange(1, s.len() as int) =~= rest);
    assert(trim_slashes(rest) == rest);
    assert(s[0] == SLASH);
}

/// A request for `/DEFAULT.html`, with or without a query, is answered with
/// the built-in page for the server's port, whatever method and version the
/// line carries.
pub proof fn lemma_builtin_request(method: Seq<u8>, query: Seq<u8>, version: Seq<u8>, port: nat)
    requires
        !method.contains(SPACE),
        !query.contains(SPACE),
    ensures
        page_for(
            method + seq![SPACE] + (seq![SLASH] + builtin_name() + seq![QUESTION] + query) + seq![
                SPACE,
            ] + version,
            port,
        ) == PageView::Builtin(builtin_page(port)),
        page_for(
            method + seq![SPACE] + (seq![SLASH] + builtin_name()) + seq![SPACE] + version,
            port,
        ) == PageView::Builtin(builtin_page(port)),
{
    reveal_strlit("DEFAULT.html");
    assert(is_ascii("DEFAULT.html"));
    let name = builtin_name();
    assert(name.len() == 12);
    assert(!name.contains(SPACE) && !name.contains(QUESTION) && name[0] != SLASH) by {
        assert(name =~= seq![68u8, 69, 70, 65, 85, 76, 84, 46, 104, 116, 109, 108]);
    }
    let target = seq![SLASH] + name + seq![QUESTION] + query;
    assert(!target.contains(SPACE)) by {
        if target.contains(SPACE) {
            let k = choose|k: int| 0 <= k < target.len() && target[k] == SPACE;
            if 1 <= k < 13 {
                assert(name[k - 1] == SPACE);
            } else if k >= 14 {
                assert(query[k - 14] == SPACE);
            }
        }
    }
    lemma_request_target(method, target, version);
    assert(target =~= seq![SLASH] + (name + seq![QUESTION] + query));
    lemma_trim_one_slash(name + seq![QUESTION] + query);
    lemma_page_name(name, query);
    let target2 = seq![SLASH] + name;
    assert(!target2.contains(SPACE)) by {
        if target2.contains(SPACE) {
            let k = choose|k: int| 0 <= k < target2.len() && target2[k] == SPACE;
            if k >= 1 {
                assert(name[k - 1] == SPACE);
            }
        }
    }
    lemma_request_target(method, target2, version);
    lemma_trim_one_slash(name);
}

/// Any other request is answered from the file its target names, without
/// leading slashes and with its query kept: for a line made of a method, a
/// space, a target and optionally a space and a version (method and target
/// holding no space) whose page is not the built-in one.
pub proof fn lemma_file_request(method: Seq<u8>, target: Seq<u8>, version: Seq<u8>, port: nat)
    requires
        !method.contains(SPACE),
        !target.contains(SPACE),
        page_name(trim_slashes(target)) != builtin_name(),
    ensures
        page_for(method + seq![SPACE] + target + seq![SPACE] + version, port) == PageView::File(
            trim_slashes(target),
        ),
        page_for(method + seq![SPACE] + target, port) == PageView::File(trim_slashes(target)),
{
    lemma_request_target(method, target, version);
}

/// The head of an answer declares the full length of the body: after the
/// status, server and content-type lines and `Content-Length: ` stand decimal
/// digits that read back as the body's length in bytes, then the line end and
/// the blank line.
pub proof fn lemma_head_declares_length(len: nat)
    ensures
        exists|d: Seq<char>|
            #![trigger numeral_value(d)]
            is_numeral(d) && numeral_value(d) == len && response_head(len) == "HTTP/1.1 200 OK\r\n".spec_bytes() + "Server: Rust\r\n".spec_bytes()
            + "Content-Type: text/html;charset=utf-8\r\n".spec_bytes()
            + "Content-Length: ".spec_bytes() + ascii_bytes(d) + "\r\n".spec_bytes()
            + "\r\n".spec_bytes(),
{
    lemma_decimal_reads_back(len);
    assert(numeral_value(decimal(len)) == len);
}

/// The built-in page names the websocket port `port + 1`: every `{port}` of
/// the template is replaced by digits reading back as `port + 1`.
pub proof fn lemma_builtin_names_ws_port(port: nat)
    ensures
        exists|d: Seq<char>|
            #![trigger numeral_value(d)]
            is_numeral(d) && numeral_value(d) == port + 1 && builtin_page(port) == replace_all(
                DEFAULT_HTML.spec_bytes(),
                "{port}".spec_bytes(),
                ascii_bytes(d),
            ),
{
    lemma_decimal_reads_back(port + 1);
    assert(numeral_value(decimal(port + 1)) == port + 1);
}

} // verus!
