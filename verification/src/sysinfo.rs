//! The sidebar's system information card: which rows it shows.

use vstd::prelude::*;
use crate::text::{chars_of, replace_all, replace_all_str};

verus! {

/// One row of the card: an icon label and its value.
pub struct InfoRow {
    pub label: &'static str,
    pub value: String,
}

/// The part of `path` after its last `/` (all of it when it has none).
pub open spec fn last_segment(path: Seq<char>) -> Seq<char>
    decreases path.len(),
{
    if path.len() == 0 {
        path
    } else if path.last() == '/' {
        Seq::empty()
    } else {
        last_segment(path.drop_last()).push(path.last())
    }
}

/// The last segment is the longest end of the path without a `/`: it is a
/// suffix of the path, holds no `/`, and is preceded by a `/` whenever it
/// is not the whole path.
pub proof fn lemma_last_segment(path: Seq<char>)
    ensures
        last_segment(path).len() <= path.len(),
        last_segment(path) == path.subrange(
            path.len() - last_segment(path).len(),
            path.len() as int,
        ),
        forall|i: int| 0 <= i < last_segment(path).len() ==> last_segment(path)[i] != '/',
        last_segment(path).len() < path.len() ==> path[path.len() - last_segment(path).len() - 1]
            == '/',
    decreases path.len(),
{
    if path.len() == 0 {
        assert(path.subrange(0, 0) =~= path);
    } else if path.last() == '/' {
        assert(path.subrange(path.len() as int, path.len() as int) =~= Seq::<char>::empty());
    } else {
        let pre = path.drop_last();
        lemma_last_segment(pre);
        let seg = last_segment(pre);
        assert(last_segment(path) == seg.push(path.last()));
        assert(path.subrange(path.len() - seg.len() - 1, path.len() as int) =~= pre.subrange(
            pre.len() - seg.len(),
            pre.len() as int,
        ).push(path.last()));
        if seg.len() < pre.len() {
            assert(path[path.len() - seg.len() - 2] == pre[pre.len() - seg.len() - 1]);
        }
    }
}

/// The name of a shell given its path, as `split('/').next_back()` finds it.
pub fn shell_name(path: &str) -> (res: String)
    ensures
        res@ == last_segment(path@),
{
    let pv = chars_of(path);
    let n = pv.len();
    let mut i = n;
    assert(path@.subrange(n as int, n as int) =~= Seq::<char>::empty());
    assert(path@.subrange(0, n as int) =~= path@);
    assert(last_segment(path@) + Seq::<char>::empty() =~= last_segment(path@));
    while i > 0 && pv[i - 1] != '/'
        invariant
            i <= n,
            n == path@.len(),
            pv@ == path@,
            last_segment(path@) == last_segment(path@.subrange(0, i as int)) + path@.subrange(
                i as int,
                n as int,
            ),
        decreases i,
    {
        let ghost pre = path@.subrange(0, i as int);
        assert(pre.drop_last() =~= path@.subrange(0, i - 1));
        assert(path@.subrange(i - 1, n as int) =~= seq![pre.last()] + path@.subrange(
            i as int,
            n as int,
        ));
        assert(last_segment(pre) == last_segment(pre.drop_last()).push(pre.last()));
        assert(last_segment(path@.subrange(0, i - 1)).push(pre.last()) + path@.subrange(
            i as int,
            n as int,
        ) =~= last_segment(path@.subrange(0, i - 1)) + path@.subrange(i - 1, n as int));
        i -= 1;
    }
    assert(last_segment(path@.subrange(0, i as int)) =~= Seq::<char>::empty());
    assert(Seq::<char>::empty() + path@.subrange(i as int, n as int) =~= path@.subrange(
        i as int,
        n as int,
    ));
    String::from_str(path.substring_char(i, n))
}

/// The rows of the card: kernel release, shell name (from `SHELL`, else
/// `Unknown`), desktop (from `XDG_CURRENT_DESKTOP`, else `Wayland`), package
/// count, and uptime with every `up ` removed.
pub fn sysinfo_rows(
    kernel: String,
    shell_var: Option<String>,
    desktop_var: Option<String>,
    pkgs: String,
    uptime: &str,
) -> (res: Vec<InfoRow>)
    ensures
        res@.len() == 5,
        res@[0].label@ == "\u{f17c}  Kernel"@,
        res@[0].value@ == kernel@,
        res@[1].label@ == "\u{f489}  Shell"@,
        res@[1].value@ == last_segment(
            match shell_var {
                Some(s) => s@,
                None => "Unknown"@,
            },
        ),
        res@[2].label@ == "\u{f2d0}  WM"@,
        res@[2].value@ == match desktop_var {
            Some(d) => d@,
            None => "Wayland"@,
        },
        res@[3].label@ == "\u{1f4e6} Pkgs"@,
        res@[3].value@ == pkgs@,
        res@[4].label@ == "\u{f017}  Uptime"@,
        res@[4].value@ == replace_all(uptime@, "up "@, Seq::empty()),
{
    let shell_path = match shell_var {
        Some(s) => s,
        None => String::from_str("Unknown"),
    };
    let shell = shell_name(shell_path.as_str());
    let wm = match desktop_var {
        Some(d) => d,
        None => String::from_str("Wayland"),
    };
    proof {
        reveal_strlit("up ");
        reveal_strlit("");
        assert(""@ =~= Seq::<char>::empty());
    }
    let up = replace_all_str(uptime, "up ", "");
    vec![
        InfoRow { label: "\u{f17c}  Kernel", value: kernel },
        InfoRow { label: "\u{f489}  Shell", value: shell },
        InfoRow { label: "\u{f2d0}  WM", value: wm },
        InfoRow { label: "\u{1f4e6} Pkgs", value: pkgs },
        InfoRow { label: "\u{f017}  Uptime", value: up },
    ]
}

} // verus!
