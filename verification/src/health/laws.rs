//! What holds of every report.
use crate::health::gather::{
    gathered, live_path, path_verdict, socket_choice, Gathering, NextView, PathKind,
};
use crate::health::render::{report_calls, ReportView};
use crate::health::service::{
    enriched, last_value, launchctl_meaning, systemctl_meaning, ServiceView,
};
use crate::health::{
    any_fail, base_plan, card_diags, card_point, checks_view, plan, upstream_points, CardInfo,
    CheckResult, CheckView, PcscProbe, Probes, ServiceProbe, SocketProbe, StatusView,
};
use crate::text::{
    as_lines, cut, dec, has_text, law_cut_is_at_the_first, law_lines_are_read_back,
    lemma_dec_injective, lines_of, texts,
};
use vstd::prelude::*;

verus! {

/// Every report starts with the same nine points in the same order; more
/// follow only where the agent reports on upstreams.
pub proof fn law_nine_points_in_order(service_name: Seq<char>, p: Probes)
    ensures
        ({
            let r = plan(service_name, p);
            &&& r.len() == 9 + upstream_points(p.upstreams).len()
            &&& p.upstreams is None ==> r.len() == 9
            &&& r[0].name == service_name
            &&& r[1].name == "agent: socket resolved"@
            &&& r[2].name == "agent: socket exists"@
            &&& r[3].name == "agent: answers request_identities"@
            &&& r[4].name == "agent: advertises ecdh extension"@
            &&& r[5].name == "pcsc: daemon reachable"@
            &&& r[6].name == "card: PIV card attached"@
            &&& r[7].name == "card: key-management slot 9D populated"@
            &&& r[8].name == "agent serves attached card"@
        }),
{
}

/// A failing point always says why, and a skipped one carries no
/// diagnostics, so that nothing is lost where a skip shows its reason only.
pub proof fn law_failures_carry_diagnostics(service_name: Seq<char>, p: Probes, i: int)
    requires
        0 <= i < plan(service_name, p).len(),
    ensures
        plan(service_name, p)[i].status is Fail ==> plan(service_name, p)[i].diags.len() > 0,
        plan(service_name, p)[i].status is Skip ==> plan(service_name, p)[i].diags.len() == 0,
{
    let base = base_plan(service_name, p);
    let r = plan(service_name, p);
    if i < 9 {
        assert(r[i] == base[i]);
        assert(i == 0 || i == 1 || i == 2 || i == 3 || i == 4 || i == 5 || i == 6 || i == 7 || i
            == 8);
    } else {
        assert(r[i] == upstream_points(p.upstreams)[i - 9]);
    }
}

/// The service point depends on the service probe alone, and no other
/// point depends on it.
pub proof fn law_service_does_not_cascade(service_name: Seq<char>, p: Probes, q: Probes, i: int)
    requires
        q == (Probes { service: q.service, ..p }),
        1 <= i < plan(service_name, p).len(),
    ensures
        plan(service_name, p).len() == plan(service_name, q).len(),
        plan(service_name, p)[i] == plan(service_name, q)[i],
{
}

proof fn lemma_card_diags(cards: Seq<CardInfo>, n: nat)
    requires
        n <= cards.len(),
    ensures
        card_diags(cards, n).len() == 2 * n,
        forall|k: int|
            0 <= k < n ==> (#[trigger] card_diags(cards, n)[2 * k]).0 == "reader_"@ + dec(k as nat),
        forall|k: int|
            0 <= k < n ==> (#[trigger] card_diags(cards, n)[2 * k + 1]).0 == "guid_"@ + dec(
                k as nat,
            ),
    decreases n,
{
    if n > 0 {
        lemma_card_diags(cards, (n - 1) as nat);
    }
}

/// With several cards attached the keys of the card point stay distinct,
/// so no card hides another.
pub proof fn law_card_keys_distinct(cards: Vec<CardInfo>, i: int, j: int)
    requires
        0 <= i < j < card_point(Some(cards)).diags.len(),
    ensures
        card_point(Some(cards)).diags[i].0 != card_point(Some(cards)).diags[j].0,
{
    let d = card_point(Some(cards)).diags;
    if cards@.len() > 0 {
        lemma_card_diags(cards@, cards@.len());
        let a = i / 2;
        let b = j / 2;
        reveal_strlit("reader_");
        reveal_strlit("guid_");
        let ki = if i % 2 == 0 {
            "reader_"@
        } else {
            "guid_"@
        };
        let kj = if j % 2 == 0 {
            "reader_"@
        } else {
            "guid_"@
        };
        assert(d[i].0 == ki + dec(a as nat)) by {
            if i % 2 == 0 {
                assert(d[2 * a].0 == "reader_"@ + dec(a as nat));
            } else {
                assert(d[2 * a + 1].0 == "guid_"@ + dec(a as nat));
            }
        }
        assert(d[j].0 == kj + dec(b as nat)) by {
            if j % 2 == 0 {
                assert(d[2 * b].0 == "reader_"@ + dec(b as nat));
            } else {
                assert(d[2 * b + 1].0 == "guid_"@ + dec(b as nat));
            }
        }
        if d[i].0 == d[j].0 {
            assert((ki + dec(a as nat))[0] == ki[0]);
            assert((kj + dec(b as nat))[0] == kj[0]);
            assert(ki == kj);
            assert((ki + dec(a as nat)).skip(ki.len() as int) =~= dec(a as nat));
            assert((kj + dec(b as nat)).skip(kj.len() as int) =~= dec(b as nat));
            lemma_dec_injective(a as nat, b as nat);
        }
    }
}

/// Without a usable socket nothing that depends on the agent is judged: the
/// dependent points are skipped, each with the reason that the socket gave.
pub proof fn law_no_socket_skips_agent_points(service_name: Seq<char>, p: Probes)
    requires
        gathered(p),
        live_path(p.socket) is None,
    ensures
        ({
            let r = plan(service_name, p);
            let why = if p.socket is Unresolved {
                "socket unresolved"@
            } else {
                "path is not a socket"@
            };
            &&& r.len() == 9
            &&& p.socket is Unresolved ==> r[1].status is Fail && r[2].status is Skip
            &&& p.socket is Resolved ==> r[1].status is Pass && r[2].status is Fail
            &&& r[3].status == StatusView::Skip(why)
            &&& r[4].status == StatusView::Skip(why)
            &&& r[8].status is Skip
        }),
{
}

/// An agent that does not answer fails its own point and nothing behind it.
pub proof fn law_silent_agent_skips_dependents(service_name: Seq<char>, p: Probes)
    requires
        gathered(p),
        p.agent is Some && p.agent->0 is Err,
    ensures
        ({
            let r = plan(service_name, p);
            &&& r.len() == 9
            &&& r[3].status is Fail
            &&& r[4].status == StatusView::Skip("agent did not answer"@)
            &&& r[8].status is Skip
        }),
{
}

/// Without the smart-card daemon the card points are skipped, not failed.
pub proof fn law_no_daemon_skips_card_points(service_name: Seq<char>, p: Probes)
    requires
        gathered(p),
        p.pcsc is Error,
    ensures
        ({
            let r = plan(service_name, p);
            &&& r[5].status is Fail
            &&& r[6].status is Skip
            &&& r[7].status is Skip
            &&& r[8].status is Skip
        }),
{
}

/// The exit code of a report is zero exactly when its plan holds no
/// failure.
pub proof fn law_exit_code_is_of_the_plan(service_name: Seq<char>, p: Probes, r: Seq<CheckResult>)
    requires
        checks_view(r) == plan(service_name, p),
    ensures
        any_fail(r) <==> exists|i: int|
            0 <= i < plan(service_name, p).len() && (#[trigger] plan(
                service_name,
                p,
            )[i]).status is Fail,
{
    assert forall|i: int| 0 <= i < r.len() implies (#[trigger] r[i]).status is Fail <==> plan(
        service_name,
        p,
    )[i].status is Fail by {
        assert(checks_view(r)[i] == r[i]@);
    }
    if any_fail(r) {
        let i = choose|i: int| 0 <= i < r.len() && (#[trigger] r[i]).status is Fail;
        assert(plan(service_name, p)[i].status is Fail);
    }
    if exists|i: int|
        0 <= i < plan(service_name, p).len() && (#[trigger] plan(
            service_name,
            p,
        )[i]).status is Fail {
        let i = choose|i: int|
            0 <= i < plan(service_name, p).len() && (#[trigger] plan(
                service_name,
                p,
            )[i]).status is Fail;
        assert(r.len() == plan(service_name, p).len());
        assert(r[i].status is Fail);
    }
}

/// A report announces as many points as it then shows, shows them in the
/// order of the plan and closes.
pub proof fn law_report_shows_every_point(service_name: Seq<char>, p: Probes, verbose: bool)
    ensures
        ({
            let c = plan(service_name, p);
            let calls = report_calls(c, verbose);
            &&& calls.len() == c.len() + 2
            &&& calls[0] == ReportView::PlanAhead(c.len())
            &&& calls.last() is Finish
            &&& forall|i: int|
                0 <= i < c.len() ==> match #[trigger] calls[i + 1] {
                    ReportView::Pass(n) => n == c[i].name && c[i].status is Pass,
                    ReportView::PassDiag(n, d) => n == c[i].name && c[i].status is Pass && d
                        == c[i].diags && verbose,
                    ReportView::FailDiag(n, d) => n == c[i].name && c[i].status is Fail && d
                        == c[i].diags,
                    ReportView::Skip(n, why) => n == c[i].name && c[i].status
                        == StatusView::Skip(why),
                    _ => false,
                }
        }),
{
}

// ---------------------------------------------------------- point by point

/// The service point passes exactly for a unit that is `active`, fails for
/// any other unit that was found, with its four states, and is skipped where
/// there is none.
pub proof fn law_service_point_is_of_the_unit(name: Seq<char>, p: Probes)
    ensures
        match p.service {
            ServiceProbe::Unit { load_state, active_state, sub_state, exec_main_status } => {
                &&& plan(name, p)[0].status == if active_state@ == "active"@ {
                    StatusView::Pass
                } else {
                    StatusView::Fail
                }
                &&& plan(name, p)[0].diags == seq![
                    ("load_state"@, load_state@),
                    ("active_state"@, active_state@),
                    ("sub_state"@, sub_state@),
                    ("exec_main_status"@, exec_main_status@),
                ]
            },
            ServiceProbe::UnitNotFound => plan(name, p)[0].status == StatusView::Skip(
                "no piggy-agent service unit installed"@,
            ),
            ServiceProbe::NotAvailable(why) => plan(name, p)[0].status == StatusView::Skip(why@),
        },
{
}

/// A socket counts as resolved exactly where a variable names one, and as
/// existing exactly where a socket lies there.
pub proof fn law_socket_points_are_of_the_socket(name: Seq<char>, p: Probes)
    ensures
        match p.socket {
            SocketProbe::Unresolved => plan(name, p)[1].status is Fail && plan(name, p)[2].status
                == StatusView::Skip("socket unresolved"@),
            SocketProbe::Resolved { source, path, is_socket, stat_detail } => {
                &&& plan(name, p)[1].status is Pass
                &&& plan(name, p)[1].diags == seq![("source"@, source@), ("path"@, path@)]
                &&& plan(name, p)[2].status == if is_socket {
                    StatusView::Pass
                } else {
                    StatusView::Fail
                }
                &&& plan(name, p)[2].diags == seq![("stat"@, stat_detail@)]
            },
        },
{
}

/// An agent passes by listing its identities, however few, and fails by its
/// error; whether it can decrypt is whether the very extension that this
/// needs is among those it names.
pub proof fn law_agent_points_are_of_the_agent(name: Seq<char>, p: Probes)
    ensures
        match p.agent {
            None => plan(name, p)[3].status is Skip,
            Some(Ok(ids)) => plan(name, p)[3].status is Pass && plan(name, p)[3].diags == seq![
                ("identities"@, dec(ids@.len())),
            ],
            Some(Err(e)) => plan(name, p)[3].status is Fail && plan(name, p)[3].diags == seq![
                ("error"@, e@),
            ],
        },
        match p.extensions {
            None => plan(name, p)[4].status is Skip,
            Some(Err(e)) => plan(name, p)[4].status is Fail && plan(name, p)[4].diags == seq![
                ("error"@, e@),
            ],
            Some(Ok(names)) => plan(name, p)[4].status == if exists|i: int|
                0 <= i < names@.len() && (#[trigger] names@[i])@ == "ecdh@joyent.com"@ {
                StatusView::Pass
            } else {
                StatusView::Fail
            },
        },
{
    if let Some(Ok(names)) = p.extensions {
        let all = texts(names@);
        assert(all.contains("ecdh@joyent.com"@) == exists|i: int|
            0 <= i < names@.len() && (#[trigger] names@[i])@ == "ecdh@joyent.com"@) by {
            if all.contains("ecdh@joyent.com"@) {
                let i = choose|i: int| 0 <= i < all.len() && all[i] == "ecdh@joyent.com"@;
                assert(names@[i]@ == "ecdh@joyent.com"@);
            }
            if exists|i: int|
                0 <= i < names@.len() && (#[trigger] names@[i])@ == "ecdh@joyent.com"@ {
                let i = choose|i: int|
                    0 <= i < names@.len() && (#[trigger] names@[i])@ == "ecdh@joyent.com"@;
                assert(all[i] == "ecdh@joyent.com"@);
            }
        }
    }
}

/// The daemon passes by answering; a card passes by being attached; and slot
/// 9D passes exactly where one of the cards, whichever, has it populated.
pub proof fn law_card_points_are_of_the_cards(name: Seq<char>, p: Probes)
    ensures
        plan(name, p)[5].status == match p.pcsc {
            PcscProbe::Reachable => StatusView::Pass,
            PcscProbe::Error(_) => StatusView::Fail,
        },
        match p.cards {
            None => plan(name, p)[6].status is Skip && plan(name, p)[7].status is Skip,
            Some(cards) => {
                &&& plan(name, p)[6].status == if cards@.len() > 0 {
                    StatusView::Pass
                } else {
                    StatusView::Fail
                }
                &&& plan(name, p)[7].status == if cards@.len() == 0 {
                    StatusView::Skip("no card attached"@)
                } else if exists|i: int|
                    0 <= i < cards@.len() && (#[trigger] cards@[i]).slot_9d is Populated {
                    StatusView::Pass
                } else {
                    StatusView::Fail
                }
                &&& forall|i: int|
                    0 <= i < cards@.len() ==> (#[trigger] plan(name, p)[7].diags[i]).0
                        == cards@[i].guid@
            },
        },
{
}

/// The last base point joins the two sides: with a card whose slot 9D is
/// populated and an agent that answers, it passes exactly if that agent
/// serves anything; otherwise it is skipped.
pub proof fn law_serving_point_joins_agent_and_card(name: Seq<char>, p: Probes)
    ensures
        ({
            let ready = p.cards is Some && exists|i: int|
                0 <= i < p.cards->0@.len() && (#[trigger] p.cards->0@[i]).slot_9d is Populated;
            match p.agent {
                Some(Ok(ids)) => plan(name, p)[8].status == if !ready {
                    StatusView::Skip("agent or card data unavailable"@)
                } else if ids@.len() > 0 {
                    StatusView::Pass
                } else {
                    StatusView::Fail
                },
                _ => plan(name, p)[8].status is Skip,
            }
        }),
{
}

/// Each upstream that the agent reports on has a point of its own behind the
/// base points, under its name, which passes exactly if it was reached; a
/// report that could not be had is one failure.
pub proof fn law_each_upstream_has_a_point(name: Seq<char>, p: Probes)
    ensures
        match p.upstreams {
            None => plan(name, p).len() == 9,
            Some(Err(e)) => plan(name, p).len() == 10 && plan(name, p)[9].status is Fail
                && plan(name, p)[9].diags == seq![("error"@, e@)],
            Some(Ok(list)) => plan(name, p).len() == 9 + list@.len() && forall|i: int|
                0 <= i < list@.len() ==> {
                    let c = #[trigger] plan(name, p)[9 + i];
                    &&& c.name == "agent: upstream "@ + list@[i].name@ + " answers"@
                    &&& c.status == if list@[i].reachable {
                        StatusView::Pass
                    } else {
                        StatusView::Fail
                    }
                    &&& c.diags == seq![("keys"@, dec(list@[i].keys as nat))]
                },
        },
{
}

/// Each point is shown as it came out: a failure with its diagnostics, a
/// pass with them only on request and where there are any, a skip with its
/// reason.
pub proof fn law_points_are_shown_as_they_came_out(c: Seq<CheckView>, verbose: bool, i: int)
    requires
        0 <= i < c.len(),
    ensures
        report_calls(c, verbose)[i + 1] == match c[i].status {
            StatusView::Fail => ReportView::FailDiag(c[i].name, c[i].diags),
            StatusView::Skip(why) => ReportView::Skip(c[i].name, why),
            StatusView::Pass => if verbose && c[i].diags.len() > 0 {
                ReportView::PassDiag(c[i].name, c[i].diags)
            } else {
                ReportView::Pass(c[i].name)
            },
        },
{
}

/// The agent's own variable names the socket before the ambient one, and an
/// empty value counts as none.
pub proof fn law_own_socket_comes_first(piggy: Option<Seq<char>>, ssh: Option<Seq<char>>)
    ensures
        piggy is Some && piggy->0.len() > 0 ==> socket_choice(piggy, ssh) == Some(
            ("PIGGY_AUTH_SOCK"@, piggy->0),
        ),
        (piggy is None || piggy->0.len() == 0) && ssh is Some && ssh->0.len() > 0 ==> socket_choice(
            piggy,
            ssh,
        ) == Some(("SSH_AUTH_SOCK"@, ssh->0)),
        (piggy is None || piggy->0.len() == 0) && (ssh is None || ssh->0.len() == 0)
            ==> socket_choice(piggy, ssh) is None,
{
}

/// Only a socket counts as one.
pub proof fn law_only_a_socket_is_a_socket(kind: PathKind)
    ensures
        path_verdict(kind).0 <==> kind is Socket,
{
}

/// The probes are run in order, each only where it makes sense: the agent is
/// asked at the path of its socket for its identities, then, if it answered,
/// for its extensions, then, if they include it, for its upstreams; the cards
/// are always listed.
pub proof fn law_probes_come_in_order(g: Gathering, path: Seq<char>)
    ensures
        live_path(g.socket) is None ==> g.next_spec() is Cards || g.next_spec() is Finished,
        live_path(g.socket) == Some(path) && g.agent is None ==> g.next_spec()
            == NextView::Identities(path),
        live_path(g.socket) == Some(path) && g.agent is Some && g.agent->0 is Ok
            && g.extensions is None ==> g.next_spec() == NextView::Extensions(path),
        g.agent is Some && g.agent->0 is Err && g.extensions is None ==> g.next_spec() is Cards
            || g.next_spec() is Finished,
        g.next_spec() is Finished ==> g.cards is Some,
        g.next_spec() is Cards ==> g.cards is None,
        live_path(g.socket) == Some(path) <==> (g.socket is Resolved && g.socket->is_socket
            && g.socket->path@ == path),
        g.next_spec() == NextView::UpstreamStatus(path) <==> {
            &&& live_path(g.socket) == Some(path)
            &&& g.agent is Some
            &&& g.extensions is Some && g.extensions->0 is Ok
            &&& texts(g.extensions->0->Ok_0@).contains("upstream-status@piggy"@)
            &&& g.upstreams is None
        },
{
}

// ------------------------------------------------------------- the service

proof fn lemma_cut_line(key: Seq<char>, value: Seq<char>)
    requires
        forall|i: int| 0 <= i < key.len() ==> #[trigger] key[i] != '=',
    ensures
        cut(key.push('=') + value, '=') == Some((key, value)),
{
    let line = key.push('=') + value;
    law_cut_is_at_the_first(line, '=');
    assert(line[key.len() as int] == '=');
    let (a, b) = cut(line, '=')->0;
    if a.len() < key.len() {
        assert(line[a.len() as int] == '=');
        assert(key[a.len() as int] == '=');
    }
    if a.len() > key.len() {
        assert(a[key.len() as int] == line[key.len() as int]);
    }
    assert(a =~= key) by {
        assert forall|i: int| 0 <= i < a.len() implies a[i] == key[i] by {
            assert(a[i] == line[i]);
        }
    }
    assert(b =~= value) by {
        assert forall|i: int| 0 <= i < b.len() implies b[i] == value[i] by {
            assert(b[i] == line[a.len() + 1 + i]);
        }
    }
}

/// The value of a key is that of its last line, whatever other lines say.
pub proof fn law_last_line_of_a_key_counts(
    all: Seq<Seq<char>>,
    key: Seq<char>,
    value: Seq<char>,
    i: int,
)
    requires
        forall|k: int| 0 <= k < key.len() ==> #[trigger] key[k] != '=',
        0 <= i < all.len(),
        all[i] == key.push('=') + value,
        forall|j: int| i < j < all.len() ==> !key.push('=').is_prefix_of(#[trigger] all[j]),
    ensures
        last_value(all, key, false) == Some(value),
    decreases all.len(),
{
    lemma_cut_line(key, value);
    if i < all.len() - 1 {
        let line = all.last();
        assert(line == all[all.len() - 1]);
        if let Some((a, b)) = cut(line, '=') {
            law_cut_is_at_the_first(line, '=');
            if a == key {
                assert(line.subrange(0, key.push('=').len() as int) =~= key.push('='));
            }
        }
        let before = all.drop_last();
        assert forall|j: int| i < j < before.len() implies !key.push('=').is_prefix_of(
            #[trigger] before[j],
        ) by {
            assert(before[j] == all[j]);
        }
        law_last_line_of_a_key_counts(before, key, value, i);
    }
}

/// What the service manager prints of a unit is what is read: each state is
/// the value of the last line for it, in whatever order the lines come.
pub proof fn law_unit_states_are_read(
    rows: Seq<Seq<char>>,
    load: Seq<char>,
    active: Seq<char>,
    sub_state: Seq<char>,
    status: Seq<char>,
    a: int,
    b: int,
    c: int,
    d: int,
)
    requires
        forall|k: int, m: int|
            0 <= k < rows.len() && 0 <= m < rows[k].len() ==> #[trigger] rows[k][m] != '\n',
        forall|k: int|
            0 <= k < rows.len() ==> (#[trigger] rows[k]).len() == 0 || rows[k].last() != '\r',
        0 <= a < rows.len() && rows[a] == "LoadState"@.push('=') + load,
        forall|j: int| a < j < rows.len() ==> !"LoadState"@.push('=').is_prefix_of(
            #[trigger] rows[j],
        ),
        0 <= b < rows.len() && rows[b] == "ActiveState"@.push('=') + active,
        forall|j: int| b < j < rows.len() ==> !"ActiveState"@.push('=').is_prefix_of(
            #[trigger] rows[j],
        ),
        0 <= c < rows.len() && rows[c] == "SubState"@.push('=') + sub_state,
        forall|j: int| c < j < rows.len() ==> !"SubState"@.push('=').is_prefix_of(
            #[trigger] rows[j],
        ),
        0 <= d < rows.len() && rows[d] == "ExecMainStatus"@.push('=') + status,
        forall|j: int| d < j < rows.len() ==> !"ExecMainStatus"@.push('=').is_prefix_of(
            #[trigger] rows[j],
        ),
    ensures
        systemctl_meaning(as_lines(rows)) == if load == "not-found"@ {
            ServiceView::UnitNotFound
        } else {
            ServiceView::Unit(load, active, sub_state, status)
        },
{
    law_lines_are_read_back(rows);
    reveal_strlit("LoadState");
    reveal_strlit("ActiveState");
    reveal_strlit("SubState");
    reveal_strlit("ExecMainStatus");
    law_last_line_of_a_key_counts(rows, "LoadState"@, load, a);
    law_last_line_of_a_key_counts(rows, "ActiveState"@, active, b);
    law_last_line_of_a_key_counts(rows, "SubState"@, sub_state, c);
    law_last_line_of_a_key_counts(rows, "ExecMainStatus"@, status, d);
}

/// Under launchd a label that is loaded is active whatever its state, one
/// that is not known counts as not installed, and any other failure as no
/// answer.
pub proof fn law_loaded_label_is_active(
    success: bool,
    code: Option<i32>,
    stdout: Seq<char>,
    stderr: Seq<char>,
)
    ensures
        ({
            let r = launchctl_meaning(success, code, stdout, stderr);
            &&& r is Unit ==> success && r->Unit_0 == "loaded"@ && r->Unit_1 == "active"@
            &&& r is UnitNotFound <==> !success && (code == Some(113i32) || has_text(
                stderr,
                "Could not find service"@,
            ))
            &&& success && (exists|i: int|
                0 <= i < lines_of(stdout).len() && cut(#[trigger] lines_of(stdout)[i], '=')
                    is Some) ==> r is Unit
        }),
{
}

/// An answer that could be read is kept whatever the exit status, and so is a
/// failed reading of a command that succeeded.
pub proof fn law_readable_answer_is_kept(
    probe: ServiceView,
    success: bool,
    code: Seq<char>,
    stderr: Seq<u8>,
)
    ensures
        !(probe is NotAvailable) || success ==> enriched(probe, success, code, stderr) == probe,
        probe is NotAvailable && !success ==> enriched(probe, success, code, stderr)
            is NotAvailable,
{
}

} // verus!
