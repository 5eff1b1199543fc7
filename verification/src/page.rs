//! The pages: the startup screen and the scripts that change it, and the
//! address of the web service.

use crate::json;
use crate::number;
use crate::text;
use url::Url;
use vstd::prelude::*;

verus! {

/// The host that the service listens on.
pub const HOST: &'static str = "127.0.0.1";

/// The port that the service listens on.
pub const PORT: u16 = 3080;

/// The address of the service for a browser.
pub const WEB_URL: &'static str = "http://127.0.0.1:3080";

/// The URL that a text stands for, as it is written canonically; `None` if the
/// text is no absolute URL.
pub uninterp spec fn canonical_url(text: Seq<char>) -> Option<Seq<char>>;

/// The script that shows the text on the startup screen.
pub open spec fn status_script_for(text: Seq<char>) -> Seq<char> {
    "document.getElementById('status').textContent = "@ + json::literal(text) + ";"@
}

/// The script that shows the failure and the place of the log on the startup
/// screen.
pub open spec fn failure_script_for(message: Seq<char>, log: Seq<char>) -> Seq<char> {
    "document.getElementById('status').textContent = '启动失败'; document.getElementById('spinner').style.display = 'none'; var e = document.getElementById('error'); e.textContent = "@
        + json::literal(message) + " + '\\n\\n日志文件：' + "@ + json::literal(log)
        + "; e.style.display = 'block'; document.getElementById('retry').style.display = 'inline-block';"@
}

/// `url::Url::parse`, and the canonical text of what it gives: which texts are
/// URLs, and how they are written canonically, depends on the text alone.
#[verifier::external_body]
fn parse_url(text: &str) -> (url: Option<String>)
    ensures
        match url {
            Some(url) => canonical_url(text@) == Some(url@),
            None => canonical_url(text@) is None,
        },
{
    Url::parse(text).ok().map(String::from)
}

/// What the service listens on: the host and the port.
pub fn server_address() -> (address: String)
    ensures
        address@ == HOST@ + ":"@ + number::natural_text(PORT as nat),
{
    let mut address = HOST.to_owned();
    address.append(":");
    address.append(number::natural(PORT as u64).as_str());
    address
}

/// The address of the service for a browser is that of what it listens on.
pub proof fn law_browser_finds_the_service()
    ensures
        WEB_URL@ == "http://"@ + (HOST@ + ":"@ + number::natural_text(PORT as nat)),
{
    reveal_strlit("http://127.0.0.1:3080");
    reveal_strlit("http://");
    reveal_strlit("127.0.0.1");
    reveal_strlit(":");
    reveal_with_fuel(number::natural_text, 4);
    assert(WEB_URL@ =~= "http://"@ + (HOST@ + ":"@ + number::natural_text(PORT as nat)));
}

/// The page to go to when the service is up; `None` if its address is no URL.
pub fn navigate_main() -> (url: Option<String>)
    ensures
        match url {
            Some(url) => canonical_url(WEB_URL@) == Some(url@),
            None => canonical_url(WEB_URL@) is None,
        },
{
    parse_url(WEB_URL)
}

/// The script that shows the text on the startup screen.
pub fn set_status(text: &str) -> (script: String)
    ensures
        script@ == status_script_for(text@),
{
    let mut script = "document.getElementById('status').textContent = ".to_owned();
    script.append(json::quote(text).as_str());
    script.append(";");
    script
}

/// The script that shows the failure and the place of the log on the startup
/// screen.
pub fn show_failure(message: &str, log: &str) -> (script: String)
    ensures
        script@ == failure_script_for(message@, log@),
{
    let mut script =
        "document.getElementById('status').textContent = '启动失败'; document.getElementById('spinner').style.display = 'none'; var e = document.getElementById('error'); e.textContent = ".to_owned();
    script.append(json::quote(message).as_str());
    script.append(" + '\\n\\n日志文件：' + ");
    script.append(json::quote(log).as_str());
    script.append(
        "; e.style.display = 'block'; document.getElementById('retry').style.display = 'inline-block';",
    );
    script
}

/// The script that puts the startup screen back to how it began.
pub fn reset_script() -> (script: String)
    ensures
        script@
            == "document.getElementById('status').textContent = '正在重新启动 Web UI…'; document.getElementById('spinner').style.display = ''; document.getElementById('error').style.display = 'none'; document.getElementById('retry').style.display = 'none';"@,
{
    "document.getElementById('status').textContent = '正在重新启动 Web UI…'; document.getElementById('spinner').style.display = ''; document.getElementById('error').style.display = 'none'; document.getElementById('retry').style.display = 'none';".to_owned()
}

/// The script that asks whether a session is still going on.
pub fn busy_script() -> (script: String)
    ensures
        script@
            == "(function(){ try { return document.querySelector('[data-state=\"ongoing\"], [data-state=\"warning\"]') !== null; } catch (e) { return false; } })()"@,
{
    "(function(){ try { return document.querySelector('[data-state=\"ongoing\"], [data-state=\"warning\"]') !== null; } catch (e) { return false; } })()".to_owned()
}

/// The startup screen shows different scripts for different texts: nothing of a
/// text is lost in its script.
pub proof fn law_status_shows_its_text(a: Seq<char>, b: Seq<char>)
    requires
        status_script_for(a) == status_script_for(b),
    ensures
        a == b,
{
    let front = "document.getElementById('status').textContent = "@;
    let x = status_script_for(a);
    let y = status_script_for(b);
    assert(x.len() == front.len() + json::literal(a).len() + ";"@.len());
    assert(y.len() == front.len() + json::literal(b).len() + ";"@.len());
    assert(x.subrange(front.len() as int, x.len() - ";"@.len()) =~= json::literal(a));
    assert(y.subrange(front.len() as int, y.len() - ";"@.len()) =~= json::literal(b));
    json::law_literal_stands_for_one_text(a, b);
}


/// The startup screen shows the whole failure and the place of the log: other ones
/// give another script.
pub proof fn law_failure_shows_its_message(
    message: Seq<char>,
    other: Seq<char>,
    log: Seq<char>,
    other_log: Seq<char>,
)
    ensures
        failure_script_for(message, log) == failure_script_for(other, log) ==> message == other,
        failure_script_for(message, log) == failure_script_for(message, other_log) ==> log
            == other_log,
{
    let head =
        "document.getElementById('status').textContent = '启动失败'; document.getElementById('spinner').style.display = 'none'; var e = document.getElementById('error'); e.textContent = "@;
    let middle = " + '\\n\\n日志文件：' + "@;
    let end =
        "; e.style.display = 'block'; document.getElementById('retry').style.display = 'inline-block';"@;
    let m = json::literal(message);
    let l = json::literal(log);
    let x = failure_script_for(message, log);
    assert(x.subrange(head.len() as int, (head.len() + m.len()) as int) =~= m);
    if failure_script_for(message, log) == failure_script_for(other, log) {
        let o = json::literal(other);
        let y = failure_script_for(other, log);
        assert(x.len() == head.len() + m.len() + middle.len() + l.len() + end.len());
        assert(y.len() == head.len() + o.len() + middle.len() + l.len() + end.len());
        assert(y.subrange(head.len() as int, (head.len() + o.len()) as int) =~= o);
        json::law_literal_stands_for_one_text(message, other);
    }
    if failure_script_for(message, log) == failure_script_for(message, other_log) {
        let o = json::literal(other_log);
        let y = failure_script_for(message, other_log);
        let at = head.len() + m.len() + middle.len();
        assert(x.len() == at + l.len() + end.len());
        assert(y.len() == at + o.len() + end.len());
        assert(x.subrange(at as int, (at + l.len()) as int) =~= l);
        assert(y.subrange(at as int, (at + o.len()) as int) =~= o);
        json::law_literal_stands_for_one_text(log, other_log);
    }
}


/// The script for a status assigns the literal of the text to the element that shows
/// the status, and does nothing else; that for a failure shows the literals of the
/// message and of the log.
pub proof fn law_scripts_hold_the_literals(text: Seq<char>, log: Seq<char>)
    ensures
        status_script_for(text).skip(
            "document.getElementById('status').textContent = "@.len() as int,
        ) == json::literal(text) + ";"@,
        text::contains_text(failure_script_for(text, log), json::literal(text)),
        text::contains_text(failure_script_for(text, log), json::literal(log)),
{
    let head = "document.getElementById('status').textContent = "@;
    assert(status_script_for(text).skip(head.len() as int) =~= json::literal(text) + ";"@);
    let front =
        "document.getElementById('status').textContent = '启动失败'; document.getElementById('spinner').style.display = 'none'; var e = document.getElementById('error'); e.textContent = "@;
    let middle = " + '\\n\\n日志文件：' + "@;
    let end =
        "; e.style.display = 'block'; document.getElementById('retry').style.display = 'inline-block';"@;
    text::lemma_contains_between(front, json::literal(text), middle + json::literal(log) + end);
    assert(front + json::literal(text) + (middle + json::literal(log) + end)
        =~= failure_script_for(text, log));
    text::lemma_contains_between(front + json::literal(text) + middle, json::literal(log), end);
}

}
