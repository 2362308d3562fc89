//! Rewriting of the panel's environment file when its port or web root
//! changes: the web root is normalised, the two settings' lines are
//! replaced in place, and missing ones are appended.

use vstd::prelude::*;

use crate::text::{
    join_lines, match_at, spec_join_lines, spec_match_at, spec_nat_string, spec_split_lines,
    spec_trim, split_lines, str_eq, trim_str, u64_to_string,
};

verus! {

/// A request to change the panel's web root and port.
#[derive(Debug, Clone)]
pub struct UpdateConfigReq {
    pub web_root: String,
    pub port: u16,
}

/// The web root normalised: trimmed, with a leading slash, and with a
/// trailing slash unless it is the bare root.
pub open spec fn spec_normalize_web_root(s: Seq<char>) -> Seq<char> {
    let t = spec_trim(s);
    let t1 = if t.len() > 0 && t[0] == '/' {
        t
    } else {
        "/"@ + t
    };
    if !(t1.len() > 0 && t1.last() == '/') && t1 != "/"@ {
        t1 + "/"@
    } else {
        t1
    }
}

/// Normalises a web root, as `spec_normalize_web_root` says.
pub fn normalize_web_root(web_root: &str) -> (r: String)
    ensures
        r@ == spec_normalize_web_root(web_root@),
{
    let t = trim_str(web_root);
    let n = t.unicode_len();
    let mut t1: String = if n > 0 && t.get_char(0) == '/' {
        t.to_owned()
    } else {
        let mut s = String::from_str("/");
        s.append(t);
        s
    };
    let n1 = t1.as_str().unicode_len();
    let ends_slash = n1 > 0 && t1.as_str().get_char(n1 - 1) == '/';
    let is_root = str_eq(t1.as_str(), "/");
    if !ends_slash && !is_root {
        t1.append("/");
    }
    t1
}

/// One line of the environment file after the rewrite: a port line becomes
/// the new port setting, a web-root line the new root setting, any other
/// line stays.
pub open spec fn spec_env_line(l: Seq<char>, port: int, root: Seq<char>) -> Seq<char> {
    if spec_match_at(l, "SERVER_PORT="@, 0) {
        "SERVER_PORT="@ + spec_nat_string(port)
    } else if spec_match_at(l, "WEB_ROOT="@, 0) {
        "WEB_ROOT="@ + root
    } else {
        l
    }
}

/// Some line starts with the given setting prefix.
pub open spec fn spec_has_prefix_line(ls: Seq<Seq<char>>, prefix: Seq<char>) -> bool {
    exists|i: int| 0 <= i < ls.len() && spec_match_at(#[trigger] ls[i], prefix, 0)
}

/// Extending the scanned prefix by one line extends the prefix search by
/// exactly that line.
proof fn lemma_has_prefix_extend(ls: Seq<Seq<char>>, i: int, prefix: Seq<char>)
    requires
        0 <= i < ls.len(),
    ensures
        spec_has_prefix_line(ls.take(i + 1), prefix) == (spec_has_prefix_line(ls.take(i), prefix)
            || spec_match_at(ls[i], prefix, 0)),
{
    let pre = ls.take(i);
    let post = ls.take(i + 1);
    if spec_has_prefix_line(pre, prefix) {
        let w = choose|w: int| 0 <= w < pre.len() && spec_match_at(#[trigger] pre[w], prefix, 0);
        assert(post[w] == pre[w]);
        assert(spec_has_prefix_line(post, prefix));
    }
    if spec_match_at(ls[i], prefix, 0) {
        assert(post[i] == ls[i]);
        assert(spec_has_prefix_line(post, prefix));
    }
    if spec_has_prefix_line(post, prefix) && !spec_match_at(ls[i], prefix, 0) {
        let w = choose|w: int| 0 <= w < post.len() && spec_match_at(#[trigger] post[w], prefix, 0);
        assert(w < i ==> pre[w] == post[w]);
        assert(w == i ==> spec_match_at(ls[i], prefix, 0));
        assert(spec_has_prefix_line(pre, prefix));
    }
}

/// The lines of the rewritten environment file: every line rewritten in
/// place, and each missing setting appended, the port first.
pub open spec fn spec_env_lines(content: Seq<char>, port: int, root: Seq<char>) -> Seq<Seq<char>> {
    let ls = spec_split_lines(content);
    let rewritten = Seq::new(ls.len(), |i: int| spec_env_line(ls[i], port, root));
    let with_port = if spec_has_prefix_line(ls, "SERVER_PORT="@) {
        rewritten
    } else {
        rewritten.push("SERVER_PORT="@ + spec_nat_string(port))
    };
    if spec_has_prefix_line(ls, "WEB_ROOT="@) {
        with_port
    } else {
        with_port.push("WEB_ROOT="@ + root)
    }
}

/// The rewritten environment file as one text.
pub open spec fn spec_env_updated(content: Seq<char>, port: int, root: Seq<char>) -> Seq<char> {
    spec_join_lines(spec_env_lines(content, port, root))
}

/// Rewrites the environment file's text for a new port and an already
/// normalised web root, as `spec_env_updated` says.
pub fn render_env_update(content: &str, port: u16, web_root: &str) -> (r: String)
    ensures
        r@ == spec_env_updated(content@, port as int, web_root@),
{
    let lines = split_lines(content);
    let ghost ls = lines.deep_view();
    let mut new_lines: Vec<String> = Vec::new();
    let mut has_port = false;
    let mut has_root = false;
    let mut i: usize = 0;
    proof {
        assert(ls.take(0) =~= Seq::<Seq<char>>::empty());
    }
    while i < lines.len()
        invariant
            ls == lines.deep_view(),
            lines@.len() == ls.len(),
            0 <= i <= ls.len(),
            new_lines.deep_view() =~= Seq::new(
                i as nat,
                |j: int| spec_env_line(ls[j], port as int, web_root@),
            ),
            has_port == spec_has_prefix_line(ls.take(i as int), "SERVER_PORT="@),
            has_root == spec_has_prefix_line(ls.take(i as int), "WEB_ROOT="@),
        decreases ls.len() - i,
    {
        proof {
            assert(ls[i as int] == lines@[i as int]@);
            lemma_has_prefix_extend(ls, i as int, "SERVER_PORT="@);
            lemma_has_prefix_extend(ls, i as int, "WEB_ROOT="@);
            reveal_strlit("SERVER_PORT=");
            reveal_strlit("WEB_ROOT=");
            if spec_match_at(ls[i as int], "SERVER_PORT="@, 0) && spec_match_at(
                ls[i as int],
                "WEB_ROOT="@,
                0,
            ) {
                assert(ls[i as int].subrange(0, 12)[0] == ls[i as int][0]);
                assert(ls[i as int].subrange(0, 9)[0] == ls[i as int][0]);
                assert(false);
            }
        }
        let ghost old_view = new_lines.deep_view();
        let l = &lines[i];
        if match_at(l.as_str(), "SERVER_PORT=", 0) {
            let mut s = String::from_str("SERVER_PORT=");
            s.append(u64_to_string(port as u64).as_str());
            new_lines.push(s);
            has_port = true;
        } else if match_at(l.as_str(), "WEB_ROOT=", 0) {
            let mut s = String::from_str("WEB_ROOT=");
            s.append(web_root);
            new_lines.push(s);
            has_root = true;
        } else {
            new_lines.push(l.clone());
        }
        proof {
            assert(new_lines.deep_view() =~= old_view.push(
                spec_env_line(ls[i as int], port as int, web_root@),
            ));
        }
        i += 1;
    }
    proof {
        assert(ls.take(ls.len() as int) =~= ls);
    }
    if !has_port {
        let ghost old_view = new_lines.deep_view();
        let mut s = String::from_str("SERVER_PORT=");
        s.append(u64_to_string(port as u64).as_str());
        new_lines.push(s);
        proof {
            assert(new_lines.deep_view() =~= old_view.push(
                "SERVER_PORT="@ + spec_nat_string(port as int),
            ));
        }
    }
    if !has_root {
        let ghost old_view = new_lines.deep_view();
        let mut s = String::from_str("WEB_ROOT=");
        s.append(web_root);
        new_lines.push(s);
        proof {
            assert(new_lines.deep_view() =~= old_view.push("WEB_ROOT="@ + web_root@));
        }
    }
    proof {
        assert(new_lines.deep_view() =~= spec_env_lines(content@, port as int, web_root@));
    }
    join_lines(&new_lines)
}

} // verus!
