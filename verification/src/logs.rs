//! Shaping of the log lines the panel serves: labelled merging of the two
//! log files, and the fixed self-check lines shown when no log is at hand.

use vstd::prelude::*;

verus! {

/// Each line with a fixed prefix in front.
pub open spec fn spec_prefixed(prefix: Seq<char>, ls: Seq<Seq<char>>) -> Seq<Seq<char>> {
    Seq::new(ls.len(), |i: int| prefix + ls[i])
}

/// The merged report: every error-log line labelled, then the last fifty
/// access-log lines labelled.
pub open spec fn spec_merged_logs(err: Seq<Seq<char>>, acc: Seq<Seq<char>>) -> Seq<Seq<char>> {
    let tail = if acc.len() > 50 {
        acc.skip(acc.len() - 50)
    } else {
        acc
    };
    spec_prefixed("[ErrorLog] "@, err) + spec_prefixed("[AccessLog] "@, tail)
}

/// Labels and merges the two logs' lines, as `spec_merged_logs` says.
pub fn merge_log_lines(error_lines: &Vec<String>, access_lines: &Vec<String>) -> (r: Vec<String>)
    ensures
        r.deep_view() == spec_merged_logs(error_lines.deep_view(), access_lines.deep_view()),
{
    let ghost ev = error_lines.deep_view();
    let ghost av = access_lines.deep_view();
    let mut r: Vec<String> = Vec::new();
    let mut i: usize = 0;
    while i < error_lines.len()
        invariant
            ev == error_lines.deep_view(),
            error_lines@.len() == ev.len(),
            0 <= i <= ev.len(),
            r.deep_view() =~= spec_prefixed("[ErrorLog] "@, ev.take(i as int)),
        decreases ev.len() - i,
    {
        proof {
            assert(ev[i as int] == error_lines@[i as int]@);
        }
        let ghost old_r = r.deep_view();
        let mut line = String::from_str("[ErrorLog] ");
        line.append(error_lines[i].as_str());
        r.push(line);
        proof {
            assert(r.deep_view() =~= old_r.push(line@));
            assert(r.deep_view() =~= spec_prefixed("[ErrorLog] "@, ev.take(i as int + 1)));
        }
        i += 1;
    }
    proof {
        assert(ev.take(ev.len() as int) =~= ev);
    }
    let start: usize = if access_lines.len() > 50 {
        access_lines.len() - 50
    } else {
        0
    };
    let ghost tail = if av.len() > 50 {
        av.skip(av.len() - 50)
    } else {
        av
    };
    proof {
        assert(tail =~= av.skip(start as int));
    }
    let mut j: usize = start;
    while j < access_lines.len()
        invariant
            av == access_lines.deep_view(),
            access_lines@.len() == av.len(),
            start <= j <= av.len(),
            tail == av.skip(start as int),
            r.deep_view() =~= spec_prefixed("[ErrorLog] "@, ev) + spec_prefixed(
                "[AccessLog] "@,
                tail.take(j - start),
            ),
            ev == error_lines.deep_view(),
        decreases av.len() - j,
    {
        proof {
            assert(av[j as int] == access_lines@[j as int]@);
            assert(tail[j - start] == av[j as int]);
        }
        let ghost old_r = r.deep_view();
        let mut line = String::from_str("[AccessLog] ");
        line.append(access_lines[j].as_str());
        r.push(line);
        proof {
            assert(r.deep_view() =~= old_r.push(line@));
            assert(r.deep_view() =~= spec_prefixed("[ErrorLog] "@, ev) + spec_prefixed(
                "[AccessLog] "@,
                tail.take(j - start + 1),
            ));
        }
        j += 1;
    }
    proof {
        assert(tail.take(tail.len() as int) =~= tail);
    }
    r
}

/// The fixed self-check lines, each dated with the caller's timestamp text.
pub fn fallback_log_lines(now: &str) -> (r: Vec<String>)
    ensures
        r.deep_view() =~= seq![
            "["@ + now@ + "] System self-check passed..."@,
            "["@ + now@ + "] Database connection pool is ready..."@,
            "["@ + now@ + "] Xray core is running normally..."@,
            "["@ + now@ + "] Backend management process is listening..."@,
            "["@ + now@ + "] No active system service logs captured (x-ui.service)..."@,
        ],
{
    let mut r: Vec<String> = Vec::new();
    let mut a = String::from_str("[");
    a.append(now);
    a.append("] System self-check passed...");
    r.push(a);
    let mut b = String::from_str("[");
    b.append(now);
    b.append("] Database connection pool is ready...");
    r.push(b);
    let mut c = String::from_str("[");
    c.append(now);
    c.append("] Xray core is running normally...");
    r.push(c);
    let mut d = String::from_str("[");
    d.append(now);
    d.append("] Backend management process is listening...");
    r.push(d);
    let mut e = String::from_str("[");
    e.append(now);
    e.append("] No active system service logs captured (x-ui.service)...");
    r.push(e);
    r
}

} // verus!
