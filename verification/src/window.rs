//! The browser window: its command-line switches, the functions it offers to
//! the page, the requests that script the page, and where Chrome is found.
use vstd::prelude::*;

use crate::message::{
    is_request_id, json_string, json_string_text, new_request_id, script_request, MyMessage,
};
use crate::net::NetworkManager;
use crate::text::{
    contains_string, copy_strings, decimal, decimal_string, has_prefix, is_numeral, join_spaced,
    join_with_spaces, lemma_decimal_reads_back, numeral_value, opt_view, starts_with, views,
};

verus! {

/// A browser window to open, and what it offers to its page.
///
/// `params` are the command-line switches gathered so far, `local_path` the
/// directory whose files the page may load; the window also keeps the names
/// of the functions bound for the page and the port of its file server.
pub struct Chrome {
    pub params: Vec<String>,
    pub local_path: Option<String>,
    map: Vec<String>,
    port: u16,
}

/// A [`Chrome`] as mathematical values.
pub struct ChromeView {
    pub params: Seq<Seq<char>>,
    pub local_path: Option<Seq<char>>,
    pub names: Seq<Seq<char>>,
    pub port: u16,
}

impl View for Chrome {
    type V = ChromeView;

    closed spec fn view(&self) -> ChromeView {
        ChromeView {
            params: views(self.params@),
            local_path: opt_view(self.local_path),
            names: views(self.map@),
            port: self.port,
        }
    }
}

/// The switch that sets the window size.
pub open spec fn window_size_arg(w: nat, h: nat) -> Seq<char> {
    "--window-size="@ + decimal(w) + ","@ + decimal(h)
}

/// The switch that sets the window position.
pub open spec fn window_position_arg(x: nat, y: nat) -> Seq<char> {
    "--window-position="@ + decimal(x) + ","@ + decimal(y)
}

/// The switch that opens `url` as an application window.
pub open spec fn app_arg(url: Seq<char>) -> Seq<char> {
    "--app="@ + url
}

/// The address of the local file server on `port`, followed by `/`.
pub open spec fn local_root(port: nat) -> Seq<char> {
    "http://127.0.0.1:"@ + decimal(port) + "/"@
}

/// The page the window opens first: the built-in page of the file server.
pub open spec fn start_url(port: nat) -> Seq<char> {
    local_root(port) + "DEFAULT.html"@
}

/// The profile directory the browser is started with.
pub open spec fn user_dir(windows: bool) -> Seq<char> {
    if windows {
        "C:\tmp"@
    } else {
        "/tmp"@
    }
}

/// The switches `run` adds, in order.
pub open spec fn run_args(port: nat, windows: bool) -> Seq<Seq<char>> {
    seq![
        "--user-data-dir="@ + user_dir(windows),
        "--remote-debugging-port=0"@,
        app_arg(start_url(port)),
    ]
}

/// Where navigating to `url` leads: an address starting with `http` as it is,
/// anything else relative to the local file server.
pub open spec fn nav_target(url: Seq<char>, port: nat) -> Seq<char> {
    if has_prefix(url, "http"@) {
        url
    } else {
        local_root(port) + url
    }
}

/// The script that points the page's frame at `src`.
pub open spec fn nav_script(src: Seq<char>) -> Seq<char> {
    "document.getElementById(\"iframe\").src=\""@ + src + "\""@
}

/// The switches every window is started with, after its own.
pub open spec fn default_params() -> Seq<Seq<char>> {
    seq![
        "--disable-renderer-backgrounding"@,
        "--disable-sync"@,
        "--disable-translate"@,
        "--disable-windows10-custom-titlebar"@,
        "--metrics-recording-only"@,
        "--no-first-run"@,
        "--no-default-browser-check"@,
        "--safebrowsing-disable-auto-update"@,
        "--password-store=basic"@,
        "--use-mock-keychain"@,
        "--disable-background-networking"@,
        "--disable-background-timer-throttling"@,
        "--disable-backgrounding-occluded-windows"@,
        "--disable-breakpad"@,
        "--disable-client-side-phishing-detection"@,
        "--disable-default-apps"@,
        "--disable-dev-shm-usage"@,
        "--disable-infobars"@,
        "--disable-extensions"@,
        "--disable-features=site-per-process"@,
        "--disable-hang-monitor"@,
        "--disable-ipc-flooding-protection"@,
        "--disable-popup-blocking"@,
        "--disable-prompt-on-repost"@,
        "--ignore-certificate-errors"@,
        "--allow-running-insecure-content"@,
        "--disable-web-security"@,
    ]
}

/// The command that starts the browser at `path` with the switches `params`.
pub open spec fn command_text(path: Seq<char>, params: Seq<Seq<char>>) -> Seq<char> {
    join_spaced(seq![path] + params + default_params())
}

/// The ports and directory a running window serves.
pub struct RunPlan {
    /// The port of the file server.
    pub http_port: u16,
    /// The port of the websocket server the built-in page connects to.
    pub ws_port: u16,
    /// The directory the file server serves.
    pub dir: String,
}

/// The operating systems whose browser locations differ.
pub enum Platform {
    Darwin,
    Windows,
    Other,
}

/// The places where a browser is looked for on Windows, given the values of
/// `LocalAppData`, `ProgramFiles` and `ProgramFiles(x86)` (empty when unset).
pub open spec fn windows_candidates(
    local_app_data: Seq<char>,
    program_files: Seq<char>,
    program_files_x86: Seq<char>,
) -> Seq<Seq<char>> {
    seq![
        local_app_data + "/Google/Chrome/Application/chrome.exe"@,
        program_files + "/Google/Chrome/Application/chrome.exe"@,
        program_files_x86 + "/Google/Chrome/Application/chrome.exe"@,
        local_app_data + "/Chromium/Application/chrome.exe"@,
        program_files + "/Chromium/Application/chrome.exe"@,
        program_files_x86 + "/Chromium/Application/chrome.exe"@,
        program_files_x86 + "/Microsoft/Edge/Application/msedge.exe"@,
        program_files + "/Microsoft/Edge/Application/msedge.exe"@,
    ]
}

/// The places where a browser is looked for on macOS.
pub open spec fn darwin_candidates() -> Seq<Seq<char>> {
    seq![
        "/Applications/Google Chrome.app/Contents/MacOS/Google Chrome"@,
        "/Applications/Google Chrome Canary.app/Contents/MacOS/Google Chrome Canary"@,
        "/Applications/Chromium.app/Contents/MacOS/Chromium"@,
        "/Applications/Microsoft Edge.app/Contents/MacOS/Microsoft Edge"@,
        "/usr/bin/google-chrome-stable"@,
        "/usr/bin/google-chrome"@,
        "/usr/bin/chromium"@,
        "/usr/bin/chromium-browser"@,
    ]
}

/// The places where a browser is looked for elsewhere.
pub open spec fn other_candidates() -> Seq<Seq<char>> {
    seq![
        "/usr/bin/google-chrome-stable"@,
        "/usr/bin/google-chrome"@,
        "/usr/bin/chromium"@,
        "/usr/bin/chromium-browser"@,
        "/snap/bin/chromium"@,
    ]
}

/// The position of the first `true` in `flags`, or its length.
pub open spec fn first_true(flags: Seq<bool>) -> int
    decreases flags.len(),
{
    if flags.len() == 0 {
        0
    } else if flags[0] {
        0
    } else {
        1 + first_true(flags.subrange(1, flags.len() as int))
    }
}

proof fn lemma_first_true_is(flags: Seq<bool>, i: int)
    requires
        0 <= i <= flags.len(),
        forall|j: int| 0 <= j < i ==> !flags[j],
        i == flags.len() || flags[i],
    ensures
        first_true(flags) == i,
    decreases flags.len(),
{
    if flags.len() > 0 && !flags[0] {
        let t = flags.subrange(1, flags.len() as int);
        assert forall|j: int| 0 <= j < i - 1 implies !t[j] by {
            assert(t[j] == flags[j + 1]);
        }
        lemma_first_true_is(t, i - 1);
    }
}

fn concat(a: &str, b: &str) -> (r: String)
    ensures
        r@ == a@ + b@,
{
    let mut r = a.to_owned();
    r.append(b);
    r
}

fn pair_arg(switch: &str, a: u64, b: u64) -> (r: String)
    ensures
        r@ == switch@ + decimal(a as nat) + ","@ + decimal(b as nat),
{
    let mut r = switch.to_owned();
    r.append(decimal_string(a).as_str());
    r.append(",");
    r.append(decimal_string(b).as_str());
    r
}

fn local_root_string(port: u16) -> (r: String)
    ensures
        r@ == local_root(port as nat),
{
    let mut r = "http://127.0.0.1:".to_owned();
    r.append(decimal_string(port as u64).as_str());
    r.append("/");
    r
}

/// The switches every window is started with, after its own.
pub fn default_param_list() -> (r: Vec<String>)
    ensures
        views(r@) == default_params(),
{
    let mut r: Vec<String> = Vec::new();
    r.push("--disable-renderer-backgrounding".to_owned());
    r.push("--disable-sync".to_owned());
    r.push("--disable-translate".to_owned());
    r.push("--disable-windows10-custom-titlebar".to_owned());
    r.push("--metrics-recording-only".to_owned());
    r.push("--no-first-run".to_owned());
    r.push("--no-default-browser-check".to_owned());
    r.push("--safebrowsing-disable-auto-update".to_owned());
    r.push("--password-store=basic".to_owned());
    r.push("--use-mock-keychain".to_owned());
    r.push("--disable-background-networking".to_owned());
    r.push("--disable-background-timer-throttling".to_owned());
    r.push("--disable-backgrounding-occluded-windows".to_owned());
    r.push("--disable-breakpad".to_owned());
    r.push("--disable-client-side-phishing-detection".to_owned());
    r.push("--disable-default-apps".to_owned());
    r.push("--disable-dev-shm-usage".to_owned());
    r.push("--disable-infobars".to_owned());
    r.push("--disable-extensions".to_owned());
    r.push("--disable-features=site-per-process".to_owned());
    r.push("--disable-hang-monitor".to_owned());
    r.push("--disable-ipc-flooding-protection".to_owned());
    r.push("--disable-popup-blocking".to_owned());
    r.push("--disable-prompt-on-repost".to_owned());
    r.push("--ignore-certificate-errors".to_owned());
    r.push("--allow-running-insecure-content".to_owned());
    r.push("--disable-web-security".to_owned());
    assert(views(r@) =~= default_params());
    r
}

/// The places where a browser is looked for, in order, on `platform`;
/// `local_app_data`, `program_files` and `program_files_x86` are the values of
/// those environment variables on Windows (empty when unset).
pub fn chrome_candidates(
    platform: Platform,
    local_app_data: &str,
    program_files: &str,
    program_files_x86: &str,
) -> (r: Vec<String>)
    ensures
        views(r@) == match platform {
            Platform::Darwin => darwin_candidates(),
            Platform::Windows => windows_candidates(
                local_app_data@,
                program_files@,
                program_files_x86@,
            ),
            Platform::Other => other_candidates(),
        },
{
    let mut r: Vec<String> = Vec::new();
    match platform {
        Platform::Darwin => {
            r.push("/Applications/Google Chrome.app/Contents/MacOS/Google Chrome".to_owned());
            r.push(
                "/Applications/Google Chrome Canary.app/Contents/MacOS/Google Chrome Canary".to_owned(),
            );
            r.push("/Applications/Chromium.app/Contents/MacOS/Chromium".to_owned());
            r.push("/Applications/Microsoft Edge.app/Contents/MacOS/Microsoft Edge".to_owned());
            r.push("/usr/bin/google-chrome-stable".to_owned());
            r.push("/usr/bin/google-chrome".to_owned());
            r.push("/usr/bin/chromium".to_owned());
            r.push("/usr/bin/chromium-browser".to_owned());
            assert(views(r@) =~= darwin_candidates());
        },
        Platform::Windows => {
            r.push(concat(local_app_data, "/Google/Chrome/Application/chrome.exe"));
            r.push(concat(program_files, "/Google/Chrome/Application/chrome.exe"));
            r.push(concat(program_files_x86, "/Google/Chrome/Application/chrome.exe"));
            r.push(concat(local_app_data, "/Chromium/Application/chrome.exe"));
            r.push(concat(program_files, "/Chromium/Application/chrome.exe"));
            r.push(concat(program_files_x86, "/Chromium/Application/chrome.exe"));
            r.push(concat(program_files_x86, "/Microsoft/Edge/Application/msedge.exe"));
            r.push(concat(program_files, "/Microsoft/Edge/Application/msedge.exe"));
            assert(views(r@) =~= windows_candidates(
                local_app_data@,
                program_files@,
                program_files_x86@,
            ));
        },
        Platform::Other => {
            r.push("/usr/bin/google-chrome-stable".to_owned());
            r.push("/usr/bin/google-chrome".to_owned());
            r.push("/usr/bin/chromium".to_owned());
            r.push("/usr/bin/chromium-browser".to_owned());
            r.push("/snap/bin/chromium".to_owned());
            assert(views(r@) =~= other_candidates());
        },
    }
    r
}

/// The first of `candidates` that exists (`exists[i]` tells whether
/// `candidates[i]` does), or the error `chrome not exist!` when none does.
pub fn get_chrome_path(candidates: &Vec<String>, exists: &Vec<bool>) -> (r: Result<
    String,
    String,
>)
    requires
        candidates@.len() == exists@.len(),
    ensures
        r matches Ok(p) ==> first_true(exists@) < exists@.len() && p@ == candidates@[first_true(
            exists@,
        )]@,
        r matches Err(e) ==> first_true(exists@) == exists@.len() && e@ == "chrome not exist!"@,
{
    let mut i: usize = 0;
    while i < exists.len() && !exists[i]
        invariant
            i <= exists@.len(),
            forall|j: int| 0 <= j < i ==> !exists@[j],
        decreases exists@.len() - i,
    {
        i = i + 1;
    }
    proof {
        lemma_first_true_is(exists@, i as int);
    }
    if i < exists.len() {
        Ok(candidates[i].clone())
    } else {
        Err("chrome not exist!".to_owned())
    }
}

impl Chrome {
    /// A window with no switches, no local directory and nothing bound.
    pub fn new() -> (c: Chrome)
        ensures
            c@.params == Seq::<Seq<char>>::empty(),
            c@.local_path is None,
            c@.names == Seq::<Seq<char>>::empty(),
            c@.port == 0,
    {
        let c = Chrome { params: Vec::new(), local_path: None, map: Vec::new(), port: 0 };
        assert(c@.params =~= Seq::<Seq<char>>::empty());
        assert(c@.names =~= Seq::<Seq<char>>::empty());
        c
    }

    /// Sets the window size to `w` by `h`.
    pub fn size(self, w: usize, h: usize) -> (c: Chrome)
        ensures
            c@ == (ChromeView {
                params: self@.params.push(window_size_arg(w as nat, h as nat)),
                ..self@
            }),
    {
        let mut c = self;
        let ghost before = c@;
        c.params.push(pair_arg("--window-size=", w as u64, h as u64));
        assert(c@.params =~= before.params.push(window_size_arg(w as nat, h as nat)));
        c
    }

    /// Sets the window position to `x`, `y`.
    pub fn pos(self, x: usize, y: usize) -> (c: Chrome)
        ensures
            c@ == (ChromeView {
                params: self@.params.push(window_position_arg(x as nat, y as nat)),
                ..self@
            }),
    {
        let mut c = self;
        let ghost before = c@;
        c.params.push(pair_arg("--window-position=", x as u64, y as u64));
        assert(c@.params =~= before.params.push(window_position_arg(x as nat, y as nat)));
        c
    }

    /// Opens `url` as an application window.
    fn url(&mut self, url: &str)
        ensures
            final(self)@ == (ChromeView { params: old(self)@.params.push(app_arg(url@)), ..old(self)@ }),
    {
        let ghost before = self@;
        self.params.push(concat("--app=", url));
        assert(self@.params =~= before.params.push(app_arg(url@)));
    }

    /// Serves the files of `path` to the page.
    pub fn local(&mut self, path: String)
        ensures
            final(self)@ == (ChromeView { local_path: Some(path@), ..old(self)@ }),
    {
        self.local_path = Some(path);
    }

    /// Offers a function named `name` to the page (once, however often it is bound).
    pub fn bind(self, name: &str) -> (c: Chrome)
        ensures
            c@ == (ChromeView {
                names: if self@.names.contains(name@) {
                    self@.names
                } else {
                    self@.names.push(name@)
                },
                ..self@
            }),
    {
        let mut c = self;
        let ghost before = c@;
        let n = name.to_owned();
        if !contains_string(&c.map, &n) {
            c.map.push(n);
            assert(c@.names =~= before.names.push(name@));
        }
        c
    }

    /// The names of the functions offered to the page.
    pub fn names(&self) -> (r: Vec<String>)
        ensures
            views(r@) == self@.names,
    {
        copy_strings(&self.map)
    }

    /// The connection bookkeeping for this window's bound functions.
    pub fn network_manager(&self) -> (nm: NetworkManager)
        requires
            self@.names.no_duplicates(),
        ensures
            !nm@.connected,
            nm@.pending == Set::<Seq<char>>::empty(),
            nm@.names == self@.names,
            nm@.session == Some("test"@),
    {
        NetworkManager::new(copy_strings(&self.map))
    }

    /// The request that runs the script `js` in the page's frame.
    pub fn eval(&self, js: String) -> (m: MyMessage)
        ensures
            m@ == script_request("eval"@, m@.id, json_string_text(js@)),
            is_request_id(m@.id),
    {
        let data = json_string(js.as_str());
        MyMessage::script("eval".to_owned(), new_request_id(), data)
    }

    /// Where navigating to `url` leads (see [`nav_target`]).
    pub fn nav_target(&self, url: &str) -> (r: String)
        ensures
            r@ == nav_target(url@, self@.port as nat),
    {
        if starts_with(url, "http") {
            url.to_owned()
        } else {
            let root = local_root_string(self.port);
            concat(root.as_str(), url)
        }
    }

    /// The request that points the page's frame at `url`.
    pub fn nav(&self, url: String) -> (m: MyMessage)
        ensures
            m@ == script_request(
                "nav"@,
                m@.id,
                json_string_text(nav_script(nav_target(url@, self@.port as nat))),
            ),
            is_request_id(m@.id),
    {
        let src = self.nav_target(url.as_str());
        let mut script = "document.getElementById(\"iframe\").src=\"".to_owned();
        script.append(src.as_str());
        script.append("\"");
        let data = json_string(script.as_str());
        MyMessage::script("nav".to_owned(), new_request_id(), data)
    }

    /// Prepares the window to run with its file server on `httpport`: adds the
    /// profile, debugging and start-page switches and returns the ports and the
    /// directory to serve (the local directory, or `./`).
    pub fn run(&mut self, httpport: u16, windows: bool) -> (plan: RunPlan)
        requires
            httpport < 65535,
        ensures
            final(self)@ == (ChromeView {
                params: old(self)@.params + run_args(httpport as nat, windows),
                port: httpport,
                ..old(self)@
            }),
            plan.http_port == httpport,
            plan.ws_port == httpport + 1,
            plan.dir@ == match old(self)@.local_path {
                Some(p) => p,
                None => "./"@,
            },
    {
        let ghost before = self@;
        self.port = httpport;
        let user_dir = if windows {
            "C:\tmp"
        } else {
            "/tmp"
        };
        self.params.push(concat("--user-data-dir=", user_dir));
        self.params.push("--remote-debugging-port=0".to_owned());
        let mut start = local_root_string(httpport);
        start.append("DEFAULT.html");
        self.url(start.as_str());
        assert(self@.params =~= before.params + run_args(httpport as nat, windows));
        let dir = match &self.local_path {
            Some(p) => p.clone(),
            None => "./".to_owned(),
        };
        RunPlan { http_port: httpport, ws_port: httpport + 1, dir }
    }

    /// The command that starts the browser at `chrome_path`: the path, the
    /// window's switches, then the default switches, separated by spaces.
    pub fn command_line(&self, chrome_path: String) -> (r: String)
        ensures
            r@ == command_text(chrome_path@, self@.params),
    {
        let mut all: Vec<String> = Vec::new();
        let ghost p = chrome_path@;
        all.push(chrome_path);
        let mut i: usize = 0;
        while i < self.params.len()
            invariant
                i <= self.params@.len(),
                views(all@) == seq![p] + views(self.params@).subrange(0, i as int),
            decreases self.params@.len() - i,
        {
            let ghost prev = views(all@);
            all.push(self.params[i].clone());
            assert(views(all@) =~= prev.push(self.params@[i as int]@));
            assert(views(self.params@).subrange(0, i + 1) =~= views(self.params@).subrange(
                0,
                i as int,
            ).push(self.params@[i as int]@));
            i = i + 1;
        }
        assert(views(self.params@).subrange(0, i as int) =~= views(self.params@));
        let defaults = default_param_list();
        let mut k: usize = 0;
        while k < defaults.len()
            invariant
                k <= defaults@.len(),
                views(defaults@) == default_params(),
                views(all@) == seq![p] + views(self.params@) + default_params().subrange(
                    0,
                    k as int,
                ),
            decreases defaults@.len() - k,
        {
            let ghost prev = views(all@);
            all.push(defaults[k].clone());
            assert(views(all@) =~= prev.push(defaults@[k as int]@));
            assert(default_params().subrange(0, k + 1) =~= default_params().subrange(
                0,
                k as int,
            ).push(default_params()[k as int]));
            k = k + 1;
        }
        assert(default_params().subrange(0, k as int) =~= default_params());
        join_with_spaces(&all)
    }
}

/// Binding keeps the offered names distinct, and the bound name is offered.
pub proof fn lemma_bind_keeps_names_distinct(names: Seq<Seq<char>>, name: Seq<char>)
    requires
        names.no_duplicates(),
    ensures
        ({
            let after = if names.contains(name) {
                names
            } else {
                names.push(name)
            };
            after.no_duplicates() && after.contains(name)
        }),
{
    if !names.contains(name) {
        let after = names.push(name);
        assert(after[names.len() as int] == name);
        assert forall|i: int, j: int|
            0 <= i < after.len() && 0 <= j < after.len() && i != j implies after[i] != after[j] by {
            if i < names.len() && j < names.len() {
            } else if i < names.len() {
                assert(names.contains(after[i]));
            } else {
                assert(names.contains(after[j]));
            }
        }
    } else {
    }
}

/// Navigation always leads to an `http` address: local pages are reached
/// through the file server.
pub proof fn lemma_nav_target_is_http(url: Seq<char>, port: nat)
    ensures
        has_prefix(nav_target(url, port), "http"@),
{
    reveal_strlit("http");
    reveal_strlit("http://127.0.0.1:");
    if !has_prefix(url, "http"@) {
        let t = local_root(port) + url;
        assert(t.subrange(0, 4) =~= "http"@);
    }
}

proof fn lemma_join_starts_with_first(words: Seq<Seq<char>>)
    requires
        words.len() >= 1,
    ensures
        has_prefix(join_spaced(words), words[0]),
    decreases words.len(),
{
    if words.len() > 1 {
        let init = words.drop_last();
        lemma_join_starts_with_first(init);
        let j = join_spaced(words);
        assert(j == join_spaced(init) + seq![' '] + words.last());
        assert(j.subrange(0, words[0].len() as int) =~= join_spaced(init).subrange(
            0,
            words[0].len() as int,
        ));
    } else {
        assert(join_spaced(words).subrange(0, words[0].len() as int) =~= words[0]);
    }
}

/// The browser command begins with the browser's path.
pub proof fn lemma_command_starts_with_path(path: Seq<char>, params: Seq<Seq<char>>)
    ensures
        has_prefix(command_text(path, params), path),
{
    let words = seq![path] + params + default_params();
    assert(words[0] == path);
    lemma_join_starts_with_first(words);
}

/// The size switch writes the width first and the height second: it is
/// `--window-size=`, digits reading back as `w`, a comma, digits reading back
/// as `h`.
pub proof fn lemma_size_switch_reads_back(w: nat, h: nat)
    ensures
        exists|dw: Seq<char>, dh: Seq<char>|
            #![trigger numeral_value(dw), numeral_value(dh)]
            is_numeral(dw) && is_numeral(dh) && numeral_value(dw) == w && numeral_value(dh) == h
                && window_size_arg(w, h) == "--window-size="@ + dw + ","@ + dh,
{
    lemma_decimal_reads_back(w);
    lemma_decimal_reads_back(h);
    assert(numeral_value(decimal(w)) == w && numeral_value(decimal(h)) == h);
}

/// The position switch writes `x` first and `y` second: it is
/// `--window-position=`, digits reading back as `x`, a comma, digits reading
/// back as `y`.
pub proof fn lemma_position_switch_reads_back(x: nat, y: nat)
    ensures
        exists|dx: Seq<char>, dy: Seq<char>|
            #![trigger numeral_value(dx), numeral_value(dy)]
            is_numeral(dx) && is_numeral(dy) && numeral_value(dx) == x && numeral_value(dy) == y
                && window_position_arg(x, y) == "--window-position="@ + dx + ","@ + dy,
{
    lemma_decimal_reads_back(x);
    lemma_decimal_reads_back(y);
    assert(numeral_value(decimal(x)) == x && numeral_value(decimal(y)) == y);
}

/// On Windows a browser is looked for as Chrome under `LocalAppData`,
/// `ProgramFiles` and `ProgramFiles(x86)`, then as Chromium under the same
/// three, then as Edge under `ProgramFiles(x86)` and `ProgramFiles`: each
/// place is the variable's value followed by the executable's path.
pub proof fn lemma_windows_search_order(l: Seq<char>, p: Seq<char>, x: Seq<char>)
    ensures
        ({
            let c = windows_candidates(l, p, x);
            let chrome = "/Google/Chrome/Application/chrome.exe"@;
            let chromium = "/Chromium/Application/chrome.exe"@;
            let edge = "/Microsoft/Edge/Application/msedge.exe"@;
            &&& c.len() == 8
            &&& c[0] == l + chrome && c[1] == p + chrome && c[2] == x + chrome
            &&& c[3] == l + chromium && c[4] == p + chromium && c[5] == x + chromium
            &&& c[6] == x + edge && c[7] == p + edge
            &&& has_prefix(c[0], l) && has_prefix(c[1], p) && has_prefix(c[2], x)
            &&& has_prefix(c[3], l) && has_prefix(c[4], p) && has_prefix(c[5], x)
            &&& has_prefix(c[6], x) && has_prefix(c[7], p)
        }),
{
    let c = windows_candidates(l, p, x);
    assert(c[0].subrange(0, l.len() as int) =~= l);
    assert(c[1].subrange(0, p.len() as int) =~= p);
    assert(c[2].subrange(0, x.len() as int) =~= x);
    assert(c[3].subrange(0, l.len() as int) =~= l);
    assert(c[4].subrange(0, p.len() as int) =~= p);
    assert(c[5].subrange(0, x.len() as int) =~= x);
    assert(c[6].subrange(0, x.len() as int) =~= x);
    assert(c[7].subrange(0, p.len() as int) =~= p);
}

/// The default switches are exactly the 27 switches below, in this order.
pub proof fn lemma_default_switches()
    ensures
        default_params().len() == 27,
        default_params()[0] == "--disable-renderer-backgrounding"@,
        default_params()[1] == "--disable-sync"@,
        default_params()[2] == "--disable-translate"@,
        default_params()[3] == "--disable-windows10-custom-titlebar"@,
        default_params()[4] == "--metrics-recording-only"@,
        default_params()[5] == "--no-first-run"@,
        default_params()[6] == "--no-default-browser-check"@,
        default_params()[7] == "--safebrowsing-disable-auto-update"@,
        default_params()[8] == "--password-store=basic"@,
        default_params()[9] == "--use-mock-keychain"@,
        default_params()[10] == "--disable-background-networking"@,
        default_params()[11] == "--disable-background-timer-throttling"@,
        default_params()[12] == "--disable-backgrounding-occluded-windows"@,
        default_params()[13] == "--disable-breakpad"@,
        default_params()[14] == "--disable-client-side-phishing-detection"@,
        default_params()[15] == "--disable-default-apps"@,
        default_params()[16] == "--disable-dev-shm-usage"@,
        default_params()[17] == "--disable-infobars"@,
        default_params()[18] == "--disable-extensions"@,
        default_params()[19] == "--disable-features=site-per-process"@,
        default_params()[20] == "--disable-hang-monitor"@,
        default_params()[21] == "--disable-ipc-flooding-protection"@,
        default_params()[22] == "--disable-popup-blocking"@,
        default_params()[23] == "--disable-prompt-on-repost"@,
        default_params()[24] == "--ignore-certificate-errors"@,
        default_params()[25] == "--allow-running-insecure-content"@,
        default_params()[26] == "--disable-web-security"@,
{
}

/// The browser is started without its first-run experience: among the words
/// of the command, after the path and the window's switches, stands
/// `--no-first-run`.
pub proof fn lemma_command_skips_first_run(path: Seq<char>, params: Seq<Seq<char>>)
    ensures
        ({
            let words = seq![path] + params + default_params();
            &&& command_text(path, params) == join_spaced(words)
            &&& words[0] == path
            &&& words[params.len() + 6int] == "--no-first-run"@
            &&& words.contains("--no-first-run"@)
        }),
{
    lemma_default_switches();
    let words = seq![path] + params + default_params();
    assert(words[params.len() + 6int] == default_params()[5]);
}

/// The switches that `run` adds: the profile directory (`C:\tmp` on Windows,
/// `/tmp` elsewhere), remote debugging on a port the browser picks, and the
/// start page: the built-in page of the file server on `port`, whose address
/// holds digits reading back as `port`.
pub proof fn lemma_run_switches(port: nat, windows: bool)
    ensures
        run_args(port, windows).len() == 3,
        run_args(port, windows)[0] == "--user-data-dir="@ + (if windows {
            "C:\tmp"@
        } else {
            "/tmp"@
        }),
        run_args(port, windows)[1] == "--remote-debugging-port=0"@,
        exists|d: Seq<char>|
            #![trigger numeral_value(d)]
            is_numeral(d) && numeral_value(d) == port && run_args(port, windows)[2] == "--app="@
                + "http://127.0.0.1:"@ + d + "/"@ + "DEFAULT.html"@,
{
    lemma_decimal_reads_back(port);
    assert(numeral_value(decimal(port)) == port);
    assert(run_args(port, windows)[2] =~= "--app="@ + "http://127.0.0.1:"@ + decimal(port) + "/"@
        + "DEFAULT.html"@);
}

/// Navigating to an address that does not start with `http` goes to the file
/// server on the window's port: `http://127.0.0.1:`, digits reading back as
/// the port, `/`, then the address as given.
pub proof fn lemma_nav_local(url: Seq<char>, port: nat)
    requires
        !has_prefix(url, "http"@),
    ensures
        exists|d: Seq<char>|
            #![trigger numeral_value(d)]
            is_numeral(d) && numeral_value(d) == port && nav_target(url, port) == "http://127.0.0.1:"@
                + d + "/"@ + url,
{
    lemma_decimal_reads_back(port);
    assert(numeral_value(decimal(port)) == port);
}

/// The first existing candidate is chosen: `first_true` finds a `true` with
/// none before it, or finds none at all.
pub proof fn lemma_first_true_first(flags: Seq<bool>)
    ensures
        0 <= first_true(flags) <= flags.len(),
        forall|j: int| 0 <= j < first_true(flags) ==> !flags[j],
        first_true(flags) < flags.len() ==> flags[first_true(flags)],
    decreases flags.len(),
{
    if flags.len() > 0 && !flags[0] {
        let t = flags.subrange(1, flags.len() as int);
        lemma_first_true_first(t);
        assert forall|j: int| 0 <= j < first_true(flags) implies !flags[j] by {
            if j > 0 {
                assert(flags[j] == t[j - 1]);
            }
        }
    }
}

/// The places looked at on macOS and elsewhere, in order.
pub proof fn lemma_unix_search_order()
    ensures
        darwin_candidates() == seq![
            "/Applications/Google Chrome.app/Contents/MacOS/Google Chrome"@,
            "/Applications/Google Chrome Canary.app/Contents/MacOS/Google Chrome Canary"@,
            "/Applications/Chromium.app/Contents/MacOS/Chromium"@,
            "/Applications/Microsoft Edge.app/Contents/MacOS/Microsoft Edge"@,
            "/usr/bin/google-chrome-stable"@,
            "/usr/bin/google-chrome"@,
            "/usr/bin/chromium"@,
            "/usr/bin/chromium-browser"@,
        ],
        other_candidates() == seq![
            "/usr/bin/google-chrome-stable"@,
            "/usr/bin/google-chrome"@,
            "/usr/bin/chromium"@,
            "/usr/bin/chromium-browser"@,
            "/snap/bin/chromium"@,
        ],
{
}

} // verus!
