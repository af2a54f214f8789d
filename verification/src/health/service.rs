//! Reading what the service manager says of the agent's unit.
use crate::health::ServiceProbe;
use crate::text::{
    cat4, contains_text, cut, dec_i64, dec_int, has_text, lines, lines_of, lossy_text, opt_text,
    same, split_once, text_from_utf8_lossy, texts, trim, trimmed,
};
use vstd::prelude::*;

verus! {

/// [`ServiceProbe`] over plain text.
pub enum ServiceView {
    NotAvailable(Seq<char>),
    UnitNotFound,
    Unit(Seq<char>, Seq<char>, Seq<char>, Seq<char>),
}

impl View for ServiceProbe {
    type V = ServiceView;

    open spec fn view(&self) -> ServiceView {
        match self {
            ServiceProbe::NotAvailable(why) => ServiceView::NotAvailable(why@),
            ServiceProbe::UnitNotFound => ServiceView::UnitNotFound,
            ServiceProbe::Unit { load_state, active_state, sub_state, exec_main_status } =>
                ServiceView::Unit(load_state@, active_state@, sub_state@, exec_main_status@),
        }
    }
}

/// A key or value as it is compared: launchd indents its lines.
pub open spec fn cleaned(s: Seq<char>, loose: bool) -> Seq<char> {
    if loose {
        trimmed(s)
    } else {
        s
    }
}

/// The value that the last line for `key` gives it, among lines of the
/// form `key=value`.
pub open spec fn last_value(
    all: Seq<Seq<char>>,
    key: Seq<char>,
    loose: bool,
) -> Option<Seq<char>>
    decreases all.len(),
{
    if all.len() == 0 {
        None
    } else {
        let here = cut(all.last(), '=');
        if here is Some && cleaned((here->0).0, loose) == key {
            Some(cleaned((here->0).1, loose))
        } else {
            last_value(all.drop_last(), key, loose)
        }
    }
}

/// Whether some line has the form `key=value`.
pub open spec fn any_key(all: Seq<Seq<char>>) -> bool {
    exists|i: int| 0 <= i < all.len() && cut(#[trigger] all[i], '=') is Some
}

fn clean(s: String, loose: bool) -> (r: String)
    ensures
        r@ == cleaned(s@, loose),
{
    if loose {
        trim(s.as_str())
    } else {
        s
    }
}

fn value_of(all: &Vec<String>, key: &str, loose: bool) -> (r: Option<String>)
    ensures
        r is Some <==> last_value(texts(all@), key@, loose) is Some,
        r is Some ==> r->0@ == last_value(texts(all@), key@, loose)->0,
{
    let mut n: usize = all.len();
    assert(texts(all@).take(n as int) =~= texts(all@));
    while n > 0
        invariant
            n <= all@.len(),
            last_value(texts(all@), key@, loose) == last_value(
                texts(all@).take(n as int),
                key@,
                loose,
            ),
        decreases n,
    {
        let ghost head = texts(all@).take(n as int);
        assert(head.last() == all@[n - 1]@);
        assert(head.drop_last() =~= texts(all@).take(n - 1));
        if let Some((k, v)) = split_once(all[n - 1].as_str(), '=') {
            if same(clean(k, loose).as_str(), key) {
                return Some(clean(v, loose));
            }
        }
        n = n - 1;
    }
    None
}

fn has_key_line(all: &Vec<String>) -> (r: bool)
    ensures
        r == any_key(texts(all@)),
{
    for i in 0..all.len()
        invariant
            forall|j: int| 0 <= j < i ==> cut(#[trigger] texts(all@)[j], '=') is None,
    {
        assert(texts(all@)[i as int] == all@[i as int]@);
        if split_once(all[i].as_str(), '=').is_some() {
            return true;
        }
    }
    false
}

/// The text of a value that may be missing.
pub open spec fn or_else(v: Option<Seq<char>>, default: Seq<char>) -> Seq<char> {
    match v {
        Some(s) => s,
        None => default,
    }
}

fn or_default(v: Option<String>, default: &str) -> (r: String)
    ensures
        r@ == or_else(opt_text(v), default@),
{
    match v {
        Some(s) => s,
        None => default.to_owned(),
    }
}

/// What `systemctl show` output says: nothing without a load state, no
/// unit where that is `not-found`, else the unit's four states. Keys come
/// in any order; where one is repeated its last line counts.
pub open spec fn systemctl_meaning(stdout: Seq<char>) -> ServiceView {
    let all = lines_of(stdout);
    match last_value(all, "LoadState"@, false) {
        None => ServiceView::NotAvailable("unparseable systemctl output"@),
        Some(load) => if load == "not-found"@ {
            ServiceView::UnitNotFound
        } else {
            ServiceView::Unit(
                load,
                or_else(last_value(all, "ActiveState"@, false), ""@),
                or_else(last_value(all, "SubState"@, false), ""@),
                or_else(last_value(all, "ExecMainStatus"@, false), ""@),
            )
        },
    }
}

/// Reads the output of `systemctl show`.
pub fn parse_systemctl_show(stdout: &str) -> (r: ServiceProbe)
    ensures
        r@ == systemctl_meaning(stdout@),
{
    let all: Vec<String> = lines(stdout);
    match value_of(&all, "LoadState", false) {
        None => ServiceProbe::NotAvailable("unparseable systemctl output".to_owned()),
        Some(load_state) => {
            if same(load_state.as_str(), "not-found") {
                ServiceProbe::UnitNotFound
            } else {
                ServiceProbe::Unit {
                    load_state,
                    active_state: or_default(value_of(&all, "ActiveState", false), ""),
                    sub_state: or_default(value_of(&all, "SubState", false), ""),
                    exec_main_status: or_default(value_of(&all, "ExecMainStatus", false), ""),
                }
            }
        },
    }
}

/// What remains of a probe once the exit status is known: a probe without
/// a usable answer from a command that failed tells the status and what
/// the command printed on its error stream.
pub open spec fn enriched(
    probe: ServiceView,
    success: bool,
    exit_desc: Seq<char>,
    stderr: Seq<u8>,
) -> ServiceView {
    if probe is NotAvailable && !success {
        ServiceView::NotAvailable(
            "systemctl failed ("@ + exit_desc + "): "@ + trimmed(lossy_text(stderr)),
        )
    } else {
        probe
    }
}

/// Folds the exit status and error stream into a probe without an answer.
pub fn enrich_unparseable_with_exit(
    probe: ServiceProbe,
    success: bool,
    exit_desc: &str,
    stderr: &[u8],
) -> (r: ServiceProbe)
    ensures
        r@ == enriched(probe@, success, exit_desc@, stderr@),
        !(probe is NotAvailable && !success) ==> r == probe,
{
    if !success {
        if let ServiceProbe::NotAvailable(_) = probe {
            let said: String = trim(text_from_utf8_lossy(stderr).as_str());
            return ServiceProbe::NotAvailable(
                cat4("systemctl failed (", exit_desc, "): ", said.as_str()),
            );
        }
    }
    probe
}

/// The exit code that `launchctl` gives for a label it does not know.
pub const LAUNCHCTL_NOT_FOUND: i32 = 113;

/// What `launchctl print` says. A label that is loaded counts as active: an
/// on-demand agent is idle between requests without being broken.
pub open spec fn launchctl_meaning(
    success: bool,
    exit_code: Option<i32>,
    stdout: Seq<char>,
    stderr: Seq<char>,
) -> ServiceView {
    if !success {
        if exit_code == Some(LAUNCHCTL_NOT_FOUND) || has_text(stderr, "Could not find service"@) {
            ServiceView::UnitNotFound
        } else {
            let code = match exit_code {
                Some(c) => dec_int(c as int),
                None => "signal"@,
            };
            ServiceView::NotAvailable(
                "launchctl failed (exit "@ + code + "): "@ + trimmed(stderr),
            )
        }
    } else if !any_key(lines_of(stdout)) {
        ServiceView::NotAvailable("unparseable launchctl output"@)
    } else {
        ServiceView::Unit(
            "loaded"@,
            "active"@,
            or_else(last_value(lines_of(stdout), "state"@, true), "unknown"@),
            or_else(last_value(lines_of(stdout), "last exit code"@, true), "unknown"@),
        )
    }
}

/// Reads the answer of `launchctl print`.
pub fn parse_launchctl_print(
    success: bool,
    exit_code: Option<i32>,
    stdout: &str,
    stderr: &str,
) -> (r: ServiceProbe)
    ensures
        r@ == launchctl_meaning(success, exit_code, stdout@, stderr@),
{
    if !success {
        let not_found: bool = match exit_code {
            Some(c) => c == LAUNCHCTL_NOT_FOUND,
            None => false,
        };
        if not_found || contains_text(stderr, "Could not find service") {
            return ServiceProbe::UnitNotFound;
        }
        let code: String = match exit_code {
            Some(c) => dec_i64(c as i64),
            None => "signal".to_owned(),
        };
        return ServiceProbe::NotAvailable(
            cat4("launchctl failed (exit ", code.as_str(), "): ", trim(stderr).as_str()),
        );
    }
    let all: Vec<String> = lines(stdout);
    if !has_key_line(&all) {
        return ServiceProbe::NotAvailable("unparseable launchctl output".to_owned());
    }
    ServiceProbe::Unit {
        load_state: "loaded".to_owned(),
        active_state: "active".to_owned(),
        sub_state: or_default(value_of(&all, "state", true), "unknown"),
        exec_main_status: or_default(value_of(&all, "last exit code", true), "unknown"),
    }
}

} // verus!
