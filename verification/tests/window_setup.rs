use chrome_bridge::window::{chrome_candidates, default_param_list, get_chrome_path, Chrome, Platform};

#[test]
fn builders_append_switches() {
    let c = Chrome::new().size(300, 500).pos(200, 200);
    assert_eq!(
        c.params,
        vec!["--window-size=300,500".to_string(), "--window-position=200,200".to_string()]
    );
    assert!(c.local_path.is_none());
}

#[test]
fn binding_is_idempotent() {
    let c = Chrome::new().bind("click").bind("close").bind("click");
    assert_eq!(c.names(), vec!["click".to_string(), "close".to_string()]);
    let nm = c.network_manager();
    assert_eq!(nm.names(), c.names());
}

#[test]
fn run_adds_switches_and_ports() {
    let mut c = Chrome::new().size(1, 2);
    let plan = c.run(9000, false);
    assert_eq!(plan.http_port, 9000);
    assert_eq!(plan.ws_port, 9001);
    assert_eq!(plan.dir, "./");
    assert_eq!(
        c.params,
        vec![
            "--window-size=1,2".to_string(),
            "--user-data-dir=/tmp".to_string(),
            "--remote-debugging-port=0".to_string(),
            "--app=http://127.0.0.1:9000/DEFAULT.html".to_string(),
        ]
    );
    let mut w = Chrome::new();
    w.local("web".to_string());
    let plan = w.run(80, true);
    assert_eq!(plan.dir, "web");
    assert_eq!(w.params[0], "--user-data-dir=C:\tmp");
}

#[test]
fn command_line_order() {
    let mut c = Chrome::new().size(3, 4);
    c.run(9000, false);
    let cmd = c.command_line("/usr/bin/chromium".to_string());
    let defaults = default_param_list();
    assert_eq!(defaults.len(), 27);
    let expected = format!(
        "/usr/bin/chromium --window-size=3,4 --user-data-dir=/tmp --remote-debugging-port=0 --app=http://127.0.0.1:9000/DEFAULT.html {}",
        defaults.join(" ")
    );
    assert_eq!(cmd, expected);
    assert!(cmd.ends_with("--disable-web-security"));
}

#[test]
fn nav_targets() {
    let mut c = Chrome::new();
    c.run(9000, false);
    assert_eq!(c.nav_target("xz.html"), "http://127.0.0.1:9000/xz.html");
    assert_eq!(c.nav_target("https://example.com"), "https://example.com");
    let m = c.nav("xz.html".to_string());
    assert_eq!(m.Typ, "nav");
    assert_eq!(m.Id.len(), 36);
    assert_eq!(
        m.Data,
        "\"document.getElementById(\\\"iframe\\\").src=\\\"http://127.0.0.1:9000/xz.html\\\"\""
    );
}

#[test]
fn eval_request() {
    let c = Chrome::new();
    let m = c.eval("alert('xz')".to_string());
    assert_eq!(m.Typ, "eval");
    assert_eq!(m.Data, "\"alert('xz')\"");
    assert!(m.FuncName.is_empty() && m.Params.is_empty());
    assert_eq!(m.Id.len(), 36);
    let id = m.Id.as_bytes();
    assert_eq!(id[14], b'4');
    assert!(matches!(id[19], b'8' | b'9' | b'a' | b'b'));
    let m2 = c.eval("a\nb".to_string());
    assert_eq!(m2.Data, "\"a\\nb\"");
    assert_ne!(m.Id, m2.Id);
}

#[test]
fn candidate_lists() {
    let other = chrome_candidates(Platform::Other, "", "", "");
    assert_eq!(other.len(), 5);
    assert_eq!(other[4], "/snap/bin/chromium");
    let darwin = chrome_candidates(Platform::Darwin, "", "", "");
    assert_eq!(darwin.len(), 8);
    assert_eq!(darwin[0], "/Applications/Google Chrome.app/Contents/MacOS/Google Chrome");
    let win = chrome_candidates(Platform::Windows, "L", "P", "X");
    assert_eq!(win[0], "L/Google/Chrome/Application/chrome.exe");
    assert_eq!(win[6], "X/Microsoft/Edge/Application/msedge.exe");
    assert_eq!(win[7], "P/Microsoft/Edge/Application/msedge.exe");
    let unset = chrome_candidates(Platform::Windows, "", "", "");
    assert_eq!(unset[1], "/Google/Chrome/Application/chrome.exe");
}

#[test]
fn picks_first_existing() {
    let c = chrome_candidates(Platform::Other, "", "", "");
    assert_eq!(
        get_chrome_path(&c, &vec![false, true, true, false, false]),
        Ok("/usr/bin/google-chrome".to_string())
    );
    assert_eq!(
        get_chrome_path(&c, &vec![false; 5]),
        Err("chrome not exist!".to_string())
    );
}

#[test]
fn eval_escapes_control_characters() {
    let c = Chrome::new();
    let m = c.eval("q\"\\\u{1}\t\u{7f}".to_string());
    assert_eq!(m.Data, "\"q\\\"\\\\\\u0001\\t\u{7f}\"");
}

#[test]
fn network_manager_starts_with_test_session() {
    let c = Chrome::new().bind("click");
    assert_eq!(c.network_manager().session(), Some("test".to_string()));
}
