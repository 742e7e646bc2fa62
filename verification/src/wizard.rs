//! Decisions and text rewriting of the install wizard: the central
//! `config.toml`, the Waybar modules file, and the plans for the files and
//! commands that the wizard touches.

use vstd::prelude::*;
use crate::text::{
    contains, contains_str, join_nonempty_lines, lemma_line_end, line_at, line_end, lines, lines_from,
    newline, replace_all, replace_all_str, chars_of, find_chars, find_from, lemma_find_from,
    matches_at, replace_first, replace_first_str, join_path, path_join, texts_of, equals_str,
    lemma_contains, lemma_matches_extend, lemma_replace_all_holds_replacement,
    lemma_join_nonempty_holds_part, lemma_find_from_shared_prefix,
};

verus! {

/// The placeholder that the config template holds in place of the Finnhub key.
pub const FINNHUB_PLACEHOLDER: &'static str = "YOUR_FINNHUB_KEY_HERE";

/// A line holding this still waits for a Finnhub key.
pub const FINNHUB_MARKER: &'static str = "YOUR_FINNHUB_KEY";

/// A line holding this belongs to the retired OpenWeatherMap settings.
pub const OWM_KEY_MARKER: &'static str = "owm_api_key";

/// A line holding this belongs to the retired OpenWeatherMap settings.
pub const OWM_SECRET_MARKER: &'static str = "YOUR_SECRET_OWM_KEY";

/// The retired weather section of older config files, removed whole.
pub const LEGACY_WEATHER_BLOCK: &'static str = "# -------------------------------\n# [waybar_weather]\n# Settings for our weather module\n# -------------------------------\n[waybar_weather]\nowm_api_key = \"YOUR_SECRET_OWM_KEY_HERE\"\n";

/// The config template with its Finnhub placeholder filled in.
pub open spec fn rendered_config(template: Seq<char>, finnhub_api: Seq<char>) -> Seq<char> {
    replace_all(template, FINNHUB_PLACEHOLDER@, finnhub_api)
}

/// Rendering puts the key wherever the template waits for it: a template
/// holding `YOUR_FINNHUB_KEY_HERE` renders to a text holding the key, and a
/// template without it renders to itself.
pub proof fn lemma_rendered_config(template: Seq<char>, finnhub_api: Seq<char>)
    ensures
        contains(template, "YOUR_FINNHUB_KEY_HERE"@) ==> contains(
            rendered_config(template, finnhub_api),
            finnhub_api,
        ),
        !contains(template, "YOUR_FINNHUB_KEY_HERE"@) ==> rendered_config(template, finnhub_api)
            == template,
{
    reveal_strlit("YOUR_FINNHUB_KEY_HERE");
    assert(FINNHUB_PLACEHOLDER@ == "YOUR_FINNHUB_KEY_HERE"@);
    if contains(template, FINNHUB_PLACEHOLDER@) {
        lemma_replace_all_holds_replacement(template, FINNHUB_PLACEHOLDER@, finnhub_api);
    } else {
        assert(template.subrange(0, template.len() as int) =~= template);
    }
}

/// Fills the Finnhub key into the config template.
pub fn render_config_template(template: &str, finnhub_api: &str) -> (res: String)
    ensures
        res@ == rendered_config(template@, finnhub_api@),
{
    proof {
        reveal_strlit("YOUR_FINNHUB_KEY_HERE");
    }
    replace_all_str(template, FINNHUB_PLACEHOLDER, finnhub_api)
}

/// A line that the update rewrites: one of the retired weather settings, or
/// one still waiting for a Finnhub key.
pub open spec fn is_placeholder_line(line: Seq<char>) -> bool {
    ||| contains(line, OWM_KEY_MARKER@)
    ||| contains(line, OWM_SECRET_MARKER@)
    ||| contains(line, FINNHUB_MARKER@)
}

/// What the update makes of one line: retired weather settings are emptied,
/// a line waiting for the Finnhub key gets the key, any other line stays.
pub open spec fn updated_line(line: Seq<char>, finnhub_api: Seq<char>) -> Seq<char> {
    if contains(line, OWM_KEY_MARKER@) || contains(line, OWM_SECRET_MARKER@) {
        Seq::empty()
    } else if contains(line, FINNHUB_MARKER@) {
        replace_all(line, FINNHUB_PLACEHOLDER@, finnhub_api)
    } else {
        line
    }
}

/// The config text once the retired weather section is cut out.
pub open spec fn without_legacy_block(contents: Seq<char>) -> Seq<char> {
    if contains(contents, LEGACY_WEATHER_BLOCK@) {
        replace_all(contents, LEGACY_WEATHER_BLOCK@, Seq::empty())
    } else {
        contents
    }
}

/// The update of an existing config: `None` when it holds neither the retired
/// weather section nor a line to rewrite; otherwise the rewritten lines,
/// empty ones dropped, each ending with a line feed.
pub open spec fn updated_config(contents: Seq<char>, finnhub_api: Seq<char>) -> Option<Seq<char>> {
    let body = without_legacy_block(contents);
    let ls = lines(body);
    if contains(contents, LEGACY_WEATHER_BLOCK@) || exists|i: int|
        0 <= i < ls.len() && #[trigger] is_placeholder_line(ls[i]) {
        Some(
            join_nonempty_lines(ls.map_values(|l: Seq<char>| updated_line(l, finnhub_api)))
                + newline(),
        )
    } else {
        None
    }
}

/// A config line that holds the Finnhub placeholder and none of the retired
/// weather settings gets the key: the update then takes place, and the key
/// stands in its result.
pub proof fn lemma_update_fills_key(contents: Seq<char>, finnhub_api: Seq<char>, i: int)
    requires
        0 <= i < lines(without_legacy_block(contents)).len(),
        contains(lines(without_legacy_block(contents))[i], FINNHUB_PLACEHOLDER@),
        !contains(lines(without_legacy_block(contents))[i], OWM_KEY_MARKER@),
        !contains(lines(without_legacy_block(contents))[i], OWM_SECRET_MARKER@),
    ensures
        updated_config(contents, finnhub_api) matches Some(r) && contains(r, finnhub_api),
{
    reveal_strlit("YOUR_FINNHUB_KEY_HERE");
    reveal_strlit("YOUR_FINNHUB_KEY");
    let ls = lines(without_legacy_block(contents));
    let line = ls[i];
    let p = FINNHUB_PLACEHOLDER@;
    let m = FINNHUB_MARKER@;
    lemma_contains(line, p);
    let j = choose|j: int| matches_at(line, p, j);
    assert(line.subrange(j, j + m.len()) =~= p.subrange(0, m.len() as int));
    assert(p.subrange(0, m.len() as int) =~= m);
    assert(matches_at(line, m, j));
    lemma_contains(line, m);
    assert(is_placeholder_line(ls[i]));
    let f = |l: Seq<char>| updated_line(l, finnhub_api);
    let mapped = ls.map_values(f);
    assert(mapped[i] == replace_all(line, p, finnhub_api));
    lemma_replace_all_holds_replacement(line, p, finnhub_api);
    let joined = join_nonempty_lines(mapped);
    let empty = Seq::<char>::empty();
    if finnhub_api.len() == 0 {
        assert(matches_at(joined + newline(), finnhub_api, 0)) by {
            assert((joined + newline()).subrange(0, 0) =~= finnhub_api);
        }
    } else {
        lemma_contains(mapped[i], finnhub_api);
        let k = choose|k: int| matches_at(mapped[i], finnhub_api, k);
        assert(mapped[i].len() > 0);
        lemma_join_nonempty_holds_part(mapped, i);
        lemma_contains(joined, mapped[i]);
        let q = choose|q: int| matches_at(joined, mapped[i], q);
        assert(joined.subrange(q + k, q + k + finnhub_api.len()) =~= mapped[i].subrange(
            k,
            k + finnhub_api.len(),
        ));
        assert(matches_at(joined, finnhub_api, q + k));
        lemma_matches_extend(joined, finnhub_api, q + k, empty, newline());
        assert(empty + joined + newline() =~= joined + newline());
    }
    lemma_contains(joined + newline(), finnhub_api);
}

/// How the update treats one line: a line naming `owm_api_key` or
/// `YOUR_SECRET_OWM_KEY` is dropped; otherwise a line naming
/// `YOUR_FINNHUB_KEY` gets every `YOUR_FINNHUB_KEY_HERE` replaced by the key;
/// any other line stays as it is and does not by itself cause an update.
pub proof fn lemma_updated_line(line: Seq<char>, finnhub_api: Seq<char>)
    ensures
        (contains(line, "owm_api_key"@) || contains(line, "YOUR_SECRET_OWM_KEY"@))
            ==> updated_line(line, finnhub_api).len() == 0,
        (!contains(line, "owm_api_key"@) && !contains(line, "YOUR_SECRET_OWM_KEY"@) && contains(
            line,
            "YOUR_FINNHUB_KEY"@,
        )) ==> updated_line(line, finnhub_api) == replace_all(
            line,
            "YOUR_FINNHUB_KEY_HERE"@,
            finnhub_api,
        ),
        (!contains(line, "owm_api_key"@) && !contains(line, "YOUR_SECRET_OWM_KEY"@) && !contains(
            line,
            "YOUR_FINNHUB_KEY"@,
        )) ==> updated_line(line, finnhub_api) == line && !is_placeholder_line(line),
{
}

fn updated_line_exec(line: &str, finnhub_api: &str) -> (res: (String, bool))
    ensures
        res.0@ == updated_line(line@, finnhub_api@),
        res.1 == is_placeholder_line(line@),
{
    proof {
        reveal_strlit("YOUR_FINNHUB_KEY_HERE");
    }
    if contains_str(line, OWM_KEY_MARKER) || contains_str(line, OWM_SECRET_MARKER) {
        (String::new(), true)
    } else if contains_str(line, FINNHUB_MARKER) {
        (replace_all_str(line, FINNHUB_PLACEHOLDER, finnhub_api), true)
    } else {
        (String::from_str(line), false)
    }
}

/// Brings an existing config up to date: cuts out the retired weather
/// section, drops the retired weather settings, and fills in the Finnhub key
/// where a line still waits for it. Returns `None` when nothing needed doing.
pub fn update_config_placeholders(contents: &str, finnhub_api: &str) -> (res: Option<String>)
    ensures
        match res {
            Some(r) => updated_config(contents@, finnhub_api@) == Some(r@),
            None => updated_config(contents@, finnhub_api@) is None,
        },
{
    proof {
        reveal_strlit("# -------------------------------\n# [waybar_weather]\n# Settings for our weather module\n# -------------------------------\n[waybar_weather]\nowm_api_key = \"YOUR_SECRET_OWM_KEY_HERE\"\n");
    }
    let legacy = contains_str(contents, LEGACY_WEATHER_BLOCK);
    let body: String = if legacy {
        replace_all_str(contents, LEGACY_WEATHER_BLOCK, "")
    } else {
        String::from_str(contents)
    };
    let s = body.as_str();
    proof {
        reveal_strlit("");
        assert(""@ =~= Seq::<char>::empty());
    }
    assert(s@ == without_legacy_block(contents@));
    let sv = chars_of(s);
    let nl: Vec<char> = vec!['\n'];
    assert(nl@ =~= newline());
    let n = sv.len();
    let mut start: usize = 0;
    let mut modified = legacy;
    let mut out = String::new();
    let ghost f = |l: Seq<char>| updated_line(l, finnhub_api@);
    let ghost mut done: Seq<Seq<char>> = Seq::empty();
    assert(lines(s@) =~= done + lines_from(s@, 0));
    while start < n
        invariant
            sv@ == s@,
            n == s@.len(),
            nl@ == newline(),
            start <= n,
            lines(s@) == done + lines_from(s@, start as int),
            out@ == join_nonempty_lines(done.map_values(f)),
            f == (|l: Seq<char>| updated_line(l, finnhub_api@)),
            modified == (legacy || exists|i: int| 0 <= i < done.len() && #[trigger] is_placeholder_line(done[i])),
        decreases n - start,
    {
        proof {
            lemma_line_end(s@, start as int);
        }
        let e = match find_chars(&sv, &nl, start) {
            Some(j) => j,
            None => n,
        };
        assert(e == line_end(s@, start as int));
        let mut stop = e;
        if e < n && e > start && sv[e - 1] == '\r' {
            stop = e - 1;
        }
        let line = s.substring_char(start, stop);
        assert(line@ =~= line_at(s@, start as int));
        let (changed, hit) = updated_line_exec(line, finnhub_api);
        if !changed.as_str().is_empty() {
            if !out.as_str().is_empty() {
                out.append("\n");
            }
            out.append(changed.as_str());
        }
        proof {
            reveal_strlit("\n");
            let old_done = done;
            done = done.push(line@);
            assert(done.map_values(f).drop_last() =~= old_done.map_values(f));
            assert(done.map_values(f).last() == changed@);
            assert(lines_from(s@, start as int) == seq![line@] + lines_from(s@, e + 1));
            assert(lines(s@) =~= done + lines_from(s@, e + 1));
            assert(lines_from(s@, n as int + 1) == lines_from(s@, n as int));
            if hit {
                assert(is_placeholder_line(done[done.len() - 1]));
            }
            assert(forall|i: int| 0 <= i < old_done.len() ==> done[i] == old_done[i]);
        }
        if hit {
            modified = true;
        }
        start = if e < n {
            e + 1
        } else {
            n
        };
    }
    assert(lines(s@) =~= done);
    if modified {
        out.append("\n");
        proof {
            reveal_strlit("\n");
        }
        Some(out)
    } else {
        None
    }
}


/// The key of the Waybar module whose click path the wizard rewrites.
pub const SIDEBAR_TOGGLE_ENTRY: &'static str = "\"custom/sidebar_toggle\"";

/// Where the sidebar toggle lived before the repository was renamed.
pub const OLD_SIDEBAR_TOGGLE_PATH: &'static str = "$HOME/rust-wayland-power/sidebar-toggle";

/// Where the sidebar toggle lives now.
pub const NEW_SIDEBAR_TOGGLE_PATH: &'static str = "$HOME/Genoa/sidebar-toggle";

/// The number of `{` minus the number of `}` in `s`.
pub open spec fn brace_balance(s: Seq<char>) -> int
    decreases s.len(),
{
    if s.len() == 0 {
        0
    } else {
        brace_balance(s.drop_last()) + if s.last() == '{' {
            1int
        } else if s.last() == '}' {
            -1int
        } else {
            0int
        }
    }
}

/// `k` is where the block opened at `start` closes: the braces of
/// `c[start..=k]` balance, and those of no shorter non-empty prefix do.
pub open spec fn closes_block(c: Seq<char>, start: int, k: int) -> bool {
    &&& start <= k < c.len()
    &&& brace_balance(c.subrange(start, k + 1)) == 0
    &&& forall|j: int| start < j <= k ==> #[trigger] brace_balance(c.subrange(start, j)) != 0
}

/// The index of the brace that closes the block opened at `start`, if any.
pub open spec fn block_end(c: Seq<char>, start: int) -> Option<int> {
    if exists|k: int| closes_block(c, start, k) {
        Some(choose|k: int| closes_block(c, start, k))
    } else {
        None
    }
}

/// The modules file with the sidebar toggle's old click path moved to the new
/// one: inside the block that follows the `"custom/sidebar_toggle"` key, the
/// first occurrence of the old path is replaced and nothing else changes.
/// `None` when there is no such key, no block after it, no closing brace, or
/// no old path inside the block.
pub open spec fn updated_sidebar_toggle(c: Seq<char>) -> Option<Seq<char>> {
    match find_from(c, SIDEBAR_TOGGLE_ENTRY@, 0) {
        None => None,
        Some(entry) => match find_from(c, seq!['{'], entry) {
            None => None,
            Some(b) => match block_end(c, b) {
                None => None,
                Some(k) => {
                    let block = c.subrange(b, k + 1);
                    if contains(block, OLD_SIDEBAR_TOGGLE_PATH@) {
                        Some(
                            c.subrange(0, b) + replace_first(
                                block,
                                OLD_SIDEBAR_TOGGLE_PATH@,
                                NEW_SIDEBAR_TOGGLE_PATH@,
                            ) + c.subrange(k + 1, c.len() as int),
                        )
                    } else {
                        None
                    }
                },
            },
        },
    }
}

proof fn lemma_balance_concat(x: Seq<char>, y: Seq<char>)
    ensures
        brace_balance(x + y) == brace_balance(x) + brace_balance(y),
    decreases y.len(),
{
    if y.len() == 0 {
        assert(x + y =~= x);
    } else {
        assert((x + y).drop_last() =~= x + y.drop_last());
        lemma_balance_concat(x, y.drop_last());
    }
}

proof fn lemma_balance_brace_free(s: Seq<char>)
    requires
        forall|i: int| 0 <= i < s.len() ==> s[i] != '{' && s[i] != '}',
    ensures
        brace_balance(s) == 0,
    decreases s.len(),
{
    if s.len() > 0 {
        lemma_balance_brace_free(s.drop_last());
    }
}

proof fn lemma_closes_block_unique(s: Seq<char>, b: int, k1: int, k2: int)
    requires
        closes_block(s, b, k1),
        closes_block(s, b, k2),
    ensures
        k1 == k2,
{
    if k1 < k2 {
        assert(brace_balance(s.subrange(b, k1 + 1)) == 0);
    } else if k2 < k1 {
        assert(brace_balance(s.subrange(b, k2 + 1)) == 0);
    }
}

/// The characters of the two toggle paths that the settling proof relies on.
proof fn lemma_toggle_path_chars()
    ensures
        OLD_SIDEBAR_TOGGLE_PATH@.len() == 39,
        NEW_SIDEBAR_TOGGLE_PATH@.len() == 26,
        OLD_SIDEBAR_TOGGLE_PATH@[0] == '$',
        OLD_SIDEBAR_TOGGLE_PATH@[38] == 'e',
        NEW_SIDEBAR_TOGGLE_PATH@[6] == 'G',
        forall|i: int|
            0 <= i < 39 ==> #[trigger] OLD_SIDEBAR_TOGGLE_PATH@[i] != 'G'
                && OLD_SIDEBAR_TOGGLE_PATH@[i] != '{' && OLD_SIDEBAR_TOGGLE_PATH@[i] != '}',
        forall|i: int|
            0 <= i < 26 ==> #[trigger] NEW_SIDEBAR_TOGGLE_PATH@[i] != '{'
                && NEW_SIDEBAR_TOGGLE_PATH@[i] != '}',
        forall|i: int| 1 <= i < 26 ==> #[trigger] NEW_SIDEBAR_TOGGLE_PATH@[i] != '$',
        forall|i: int| 0 <= i < 6 ==> #[trigger] NEW_SIDEBAR_TOGGLE_PATH@[i] != 'e',
        forall|i: int| 0 <= i < SIDEBAR_TOGGLE_ENTRY@.len() ==> #[trigger] SIDEBAR_TOGGLE_ENTRY@[i] != '{',
{
    reveal_strlit("$HOME/rust-wayland-power/sidebar-toggle");
    reveal_strlit("$HOME/Genoa/sidebar-toggle");
    reveal_strlit("\"custom/sidebar_toggle\"");
}

/// A block holding the old path once holds it no more after the update.
proof fn lemma_patched_block_clean(blk: Seq<char>, j: int, bu: Seq<char>)
    requires
        matches_at(blk, OLD_SIDEBAR_TOGGLE_PATH@, j),
        forall|q: int| matches_at(blk, OLD_SIDEBAR_TOGGLE_PATH@, q) ==> q == j,
        bu == blk.subrange(0, j) + NEW_SIDEBAR_TOGGLE_PATH@ + blk.subrange(
            j + OLD_SIDEBAR_TOGGLE_PATH@.len(),
            blk.len() as int,
        ),
    ensures
        !contains(bu, OLD_SIDEBAR_TOGGLE_PATH@),
{
    lemma_toggle_path_chars();
    let o = OLD_SIDEBAR_TOGGLE_PATH@;
    let n = NEW_SIDEBAR_TOGGLE_PATH@;
    lemma_contains(bu, o);
    if contains(bu, o) {
        let q = choose|q: int| matches_at(bu, o, q);
        assert forall|y: int| 0 <= y < 39 implies #[trigger] bu[q + y] == o[y] by {
            assert(bu.subrange(q, q + 39)[y] == bu[q + y]);
        }
        if q + 39 <= j {
            assert forall|y: int| 0 <= y < 39 implies blk.subrange(q, q + 39)[y] == o[y] by {
                assert(bu[q + y] == blk[q + y]);
            }
            assert(blk.subrange(q, q + 39) =~= o);
            assert(matches_at(blk, o, q));
        } else if q >= j + 26 {
            assert forall|y: int| 0 <= y < 39 implies blk.subrange(q + 13, q + 13 + 39)[y] == o[y] by {
                assert(bu[q + y] == blk[q + 13 + y]);
            }
            assert(blk.subrange(q + 13, q + 13 + 39) =~= o);
            assert(matches_at(blk, o, q + 13));
        } else if q <= j + 6 && j + 6 < q + 39 {
            assert(bu[j + 6] == n[6]);
            assert(bu[q + (j + 6 - q)] == o[j + 6 - q]);
        } else if q > j + 6 {
            assert(bu[q] == n[q - j]);
            assert(bu[q + 0] == o[0]);
        } else {
            assert(bu[q + 38] == n[q + 38 - j]);
            assert(bu[q + 38] == o[38]);
        }
    }
}

/// Swapping the old path for the new one inside a block moves its closing
/// brace back by the difference of their lengths, as neither holds a brace.
proof fn lemma_patched_block_end(c: Seq<char>, u: Seq<char>, b: int, k: int, p: int)
    requires
        closes_block(c, b, k),
        0 <= b < p,
        p + 39 <= k + 1,
        c.subrange(p, p + 39) == OLD_SIDEBAR_TOGGLE_PATH@,
        u == c.subrange(0, p) + NEW_SIDEBAR_TOGGLE_PATH@ + c.subrange(p + 39, c.len() as int),
    ensures
        closes_block(u, b, k - 13),
{
    lemma_toggle_path_chars();
    let o = OLD_SIDEBAR_TOGGLE_PATH@;
    let n = NEW_SIDEBAR_TOGGLE_PATH@;
    let tail = c.subrange(p + 39, c.len() as int);
    lemma_balance_brace_free(o);
    lemma_balance_brace_free(n);
    assert forall|m: int| b < m <= k - 12 implies #[trigger] brace_balance(u.subrange(b, m)) == (
    if m <= p {
        brace_balance(c.subrange(b, m))
    } else if m < p + 26 {
        brace_balance(c.subrange(b, p))
    } else {
        brace_balance(c.subrange(b, m + 13))
    }) by {
        if m <= p {
            assert(u.subrange(b, m) =~= c.subrange(b, m));
        } else if m < p + 26 {
            let np = n.subrange(0, m - p);
            assert(u.subrange(b, m) =~= c.subrange(b, p) + np);
            lemma_balance_brace_free(np);
            lemma_balance_concat(c.subrange(b, p), np);
        } else {
            let tp = tail.subrange(0, m - p - 26);
            assert(u.subrange(b, m) =~= c.subrange(b, p) + n + tp);
            assert(c.subrange(b, m + 13) =~= c.subrange(b, p) + o + tp);
            lemma_balance_concat(c.subrange(b, p), n);
            lemma_balance_concat(c.subrange(b, p) + n, tp);
            lemma_balance_concat(c.subrange(b, p), o);
            lemma_balance_concat(c.subrange(b, p) + o, tp);
        }
    }
    assert(brace_balance(u.subrange(b, k - 12)) == brace_balance(c.subrange(b, k + 1)));
    assert forall|m: int| b < m <= k - 13 implies #[trigger] brace_balance(u.subrange(b, m)) != 0 by {
        if m <= p {
            assert(brace_balance(c.subrange(b, m)) != 0);
        } else if m < p + 26 {
            assert(brace_balance(c.subrange(b, p)) != 0);
        } else {
            assert(brace_balance(c.subrange(b, m + 13)) != 0);
        }
    }
}

proof fn lemma_balance_step(c: Seq<char>, start: int, k: int)
    requires
        0 <= start <= k < c.len(),
    ensures
        brace_balance(c.subrange(start, k + 1)) == brace_balance(c.subrange(start, k)) + if c[k]
            == '{' {
            1int
        } else if c[k] == '}' {
            -1int
        } else {
            0int
        },
{
    assert(c.subrange(start, k + 1).drop_last() =~= c.subrange(start, k));
}

/// Finds the brace that closes the block opened at `start`.
fn find_block_end(c: &Vec<char>, start: usize) -> (res: Option<usize>)
    requires
        start < c@.len(),
        c@[start as int] == '{',
    ensures
        match res {
            Some(k) => block_end(c@, start as int) == Some(k as int),
            None => block_end(c@, start as int) is None,
        },
{
    let mut depth: usize = 0;
    let mut k: usize = start;
    assert(c@.subrange(start as int, start as int) =~= Seq::<char>::empty());
    while k < c.len()
        invariant
            start <= k <= c@.len(),
            c@[start as int] == '{',
            depth as int == brace_balance(c@.subrange(start as int, k as int)),
            depth <= k - start,
            k > start ==> depth > 0,
            forall|j: int|
                start < j <= k ==> #[trigger] brace_balance(c@.subrange(start as int, j)) != 0,
        decreases c@.len() - k,
    {
        proof {
            lemma_balance_step(c@, start as int, k as int);
        }
        let ch = c[k];
        if ch == '{' {
            depth = depth + 1;
        } else if ch == '}' {
            depth = depth - 1;
            if depth == 0 {
                assert(closes_block(c@, start as int, k as int));
                proof {
                    assert forall|k2: int| closes_block(c@, start as int, k2) implies k2 == k by {
                        if k2 < k {
                        } else if k2 > k {
                            assert(!closes_block(c@, start as int, k2));
                        }
                    }
                }
                return Some(k);
            }
        }
        k += 1;
    }
    assert forall|k2: int| !closes_block(c@, start as int, k2) by {
        if start <= k2 < c@.len() {
        }
    }
    None
}

/// Moves the sidebar toggle's click path in the Waybar modules file from the
/// old repository location to the new one, touching nothing else. Returns
/// `None` when the file has nothing to move.
pub fn update_sidebar_toggle_path(content: &str) -> (res: Option<String>)
    ensures
        match res {
            Some(r) => updated_sidebar_toggle(content@) == Some(r@),
            None => updated_sidebar_toggle(content@) is None,
        },
{
    let cv = chars_of(content);
    let entry_pat = chars_of(SIDEBAR_TOGGLE_ENTRY);
    let brace: Vec<char> = vec!['{'];
    assert(brace@ =~= seq!['{']);
    let entry = match find_chars(&cv, &entry_pat, 0) {
        Some(e) => e,
        None => return None,
    };
    proof {
        lemma_find_from(content@, SIDEBAR_TOGGLE_ENTRY@, 0);
    }
    let b = match find_chars(&cv, &brace, entry) {
        Some(b) => b,
        None => return None,
    };
    proof {
        lemma_find_from(content@, seq!['{'], entry as int);
        assert(content@.subrange(b as int, b + 1)[0] == content@[b as int]);
    }
    let k = match find_block_end(&cv, b) {
        Some(k) => k,
        None => return None,
    };
    assert(closes_block(content@, b as int, k as int));
    assert(cv@.len() == cv.len());
    let block = content.substring_char(b, k + 1);
    if !contains_str(block, OLD_SIDEBAR_TOGGLE_PATH) {
        return None;
    }
    let mut updated = String::from_str(content.substring_char(0, b));
    let replaced = replace_first_str(block, OLD_SIDEBAR_TOGGLE_PATH, NEW_SIDEBAR_TOGGLE_PATH);
    updated.append(replaced.as_str());
    updated.append(content.substring_char(k + 1, cv.len()));
    Some(updated)
}

/// The block that follows the `"custom/sidebar_toggle"` key, both braces
/// included, if there is one.
pub open spec fn sidebar_toggle_block(c: Seq<char>) -> Option<Seq<char>> {
    match find_from(c, SIDEBAR_TOGGLE_ENTRY@, 0) {
        None => None,
        Some(entry) => match find_from(c, seq!['{'], entry) {
            None => None,
            Some(b) => match block_end(c, b) {
                None => None,
                Some(k) => Some(c.subrange(b, k + 1)),
            },
        },
    }
}

/// Moving the sidebar toggle path settles the file: when the old path occurs
/// once in the toggle's block, the update shortens the text by the 13
/// characters the new path is shorter, and a second update finds nothing to
/// do.
pub proof fn lemma_sidebar_toggle_update_settles(c: Seq<char>)
    requires
        updated_sidebar_toggle(c) is Some,
        forall|q1: int, q2: int|
            matches_at(sidebar_toggle_block(c)->0, OLD_SIDEBAR_TOGGLE_PATH@, q1) && matches_at(
                sidebar_toggle_block(c)->0,
                OLD_SIDEBAR_TOGGLE_PATH@,
                q2,
            ) ==> q1 == q2,
    ensures
        updated_sidebar_toggle(c)->0.len() == c.len() - 13,
        updated_sidebar_toggle(updated_sidebar_toggle(c)->0) is None,
{
    lemma_toggle_path_chars();
    let o = OLD_SIDEBAR_TOGGLE_PATH@;
    let n = NEW_SIDEBAR_TOGGLE_PATH@;
    let en = SIDEBAR_TOGGLE_ENTRY@;
    let e = find_from(c, en, 0)->0;
    lemma_find_from(c, en, 0);
    let b = find_from(c, seq!['{'], e)->0;
    lemma_find_from(c, seq!['{'], e);
    let k = block_end(c, b)->0;
    assert(closes_block(c, b, k));
    let blk = c.subrange(b, k + 1);
    let j = find_from(blk, o, 0)->0;
    lemma_find_from(blk, o, 0);
    let u = updated_sidebar_toggle(c)->0;
    assert(c[b] == '{') by {
        assert(c.subrange(b, b + 1)[0] == c[b]);
    }
    assert(j >= 1) by {
        if j == 0 {
            assert(blk.subrange(0, 39)[0] == blk[0]);
        }
    }
    let p = b + j;
    assert(c.subrange(p, p + 39) =~= o) by {
        assert forall|y: int| 0 <= y < 39 implies c.subrange(p, p + 39)[y] == o[y] by {
            assert(blk.subrange(j, j + 39)[y] == o[y]);
        }
    }
    let bu_expected = blk.subrange(0, j) + n + blk.subrange(j + 39, blk.len() as int);
    assert(u == c.subrange(0, b) + bu_expected + c.subrange(k + 1, c.len() as int));
    assert(u =~= c.subrange(0, p) + n + c.subrange(p + 39, c.len() as int));
    assert(e + en.len() <= b) by {
        if b < e + en.len() {
            assert(c.subrange(e, e + en.len())[b - e] == c[b]);
        }
    }
    lemma_find_from_shared_prefix(c, u, en, 0, p);
    lemma_find_from_shared_prefix(c, u, seq!['{'], e, p);
    lemma_patched_block_end(c, u, b, k, p);
    let k2 = k - 13;
    let kk = choose|kk: int| closes_block(u, b, kk);
    lemma_closes_block_unique(u, b, kk, k2);
    assert(block_end(u, b) == Some(k2));
    let bu = u.subrange(b, k2 + 1);
    assert(bu =~= bu_expected);
    assert(sidebar_toggle_block(c) == Some(blk));
    assert forall|q: int| matches_at(blk, o, q) implies q == j by {
        let blk0 = sidebar_toggle_block(c)->0;
        assert(blk0 == blk);
        assert(matches_at(blk0, o, q) && matches_at(blk0, o, j));
    }
    lemma_patched_block_clean(blk, j, bu);
}

/// Updating the sidebar toggle path replaces exactly one occurrence of the
/// old path by the new one and leaves every other character in place.
pub proof fn lemma_sidebar_toggle_update_is_surgical(c: Seq<char>)
    ensures
        updated_sidebar_toggle(c) matches Some(u) ==> exists|i: int|
            {
                &&& matches_at(c, "$HOME/rust-wayland-power/sidebar-toggle"@, i)
                &&& u == c.subrange(0, i) + "$HOME/Genoa/sidebar-toggle"@ + c.subrange(
                    i + 39,
                    c.len() as int,
                )
            },
        updated_sidebar_toggle(c) matches Some(u) ==> exists|i: int|
            {
                &&& matches_at(c, OLD_SIDEBAR_TOGGLE_PATH@, i)
                &&& u == c.subrange(0, i) + NEW_SIDEBAR_TOGGLE_PATH@ + c.subrange(
                    i + OLD_SIDEBAR_TOGGLE_PATH@.len(),
                    c.len() as int,
                )
            },
{
    if let Some(u) = updated_sidebar_toggle(c) {
        let entry = find_from(c, SIDEBAR_TOGGLE_ENTRY@, 0)->0;
        lemma_find_from(c, SIDEBAR_TOGGLE_ENTRY@, 0);
        let b = find_from(c, seq!['{'], entry)->0;
        lemma_find_from(c, seq!['{'], entry);
        let k = block_end(c, b)->0;
        assert(closes_block(c, b, k));
        let block = c.subrange(b, k + 1);
        let old = OLD_SIDEBAR_TOGGLE_PATH@;
        let j = find_from(block, old, 0)->0;
        lemma_find_from(block, old, 0);
        let i = b + j;
        assert(block.subrange(j, j + old.len()) =~= c.subrange(i, i + old.len()));
        assert(matches_at(c, old, i));
        assert(u =~= c.subrange(0, i) + NEW_SIDEBAR_TOGGLE_PATH@ + c.subrange(
            i + old.len(),
            c.len() as int,
        ));
        lemma_toggle_path_chars();
        reveal_strlit("$HOME/rust-wayland-power/sidebar-toggle");
        reveal_strlit("$HOME/Genoa/sidebar-toggle");
    }
}


/// Files that a template in the Waybar config directory unpacks into.
pub open spec fn waybar_config_names() -> Seq<Seq<char>> {
    seq!["swayConfig.jsonc"@, "niriConfig.jsonc"@]
}

/// Two Waybar configs are unpacked, the Sway one and the niri one, each a
/// JSONC file.
pub proof fn lemma_waybar_config_names()
    ensures
        waybar_config_names().len() == 2,
        waybar_config_names().contains("swayConfig.jsonc"@),
        waybar_config_names().contains("niriConfig.jsonc"@),
{
    assert(waybar_config_names()[0] == "swayConfig.jsonc"@);
    assert(waybar_config_names()[1] == "niriConfig.jsonc"@);
}

/// One Waybar config to unpack: its name, its template, and the file it
/// unpacks into.
pub struct WaybarConfigJob {
    pub name: &'static str,
    pub template: String,
    pub target: String,
}

/// The Waybar configs below the home directory `home` and their templates
/// (`<name>.template` beside each).
pub fn waybar_config_jobs(home: &str) -> (res: Vec<WaybarConfigJob>)
    ensures
        res@.len() == waybar_config_names().len(),
        forall|i: int|
            0 <= i < res@.len() ==> {
                let dir = path_join(home@, ".config/waybar"@);
                &&& #[trigger] res@[i].name@ == waybar_config_names()[i]
                &&& res@[i].target@ == path_join(dir, waybar_config_names()[i])
                &&& res@[i].template@ == path_join(dir, waybar_config_names()[i] + ".template"@)
            },
{
    let dir = join_path(home, ".config/waybar");
    let names: Vec<&'static str> = vec!["swayConfig.jsonc", "niriConfig.jsonc"];
    assert(names@.map_values(|n: &str| n@) =~= waybar_config_names());
    let mut jobs: Vec<WaybarConfigJob> = Vec::new();
    let mut i: usize = 0;
    while i < names.len()
        invariant
            names@.map_values(|n: &str| n@) == waybar_config_names(),
            dir@ == path_join(home@, ".config/waybar"@),
            i <= names@.len(),
            jobs@.len() == i,
            forall|k: int|
                0 <= k < i ==> {
                    &&& #[trigger] jobs@[k].name@ == waybar_config_names()[k]
                    &&& jobs@[k].target@ == path_join(dir@, waybar_config_names()[k])
                    &&& jobs@[k].template@ == path_join(
                        dir@,
                        waybar_config_names()[k] + ".template"@,
                    )
                },
        decreases names@.len() - i,
    {
        let name = names[i];
        assert(name@ == names@.map_values(|n: &str| n@)[i as int]);
        let mut template_name = String::from_str(name);
        template_name.append(".template");
        let job = WaybarConfigJob {
            name,
            template: join_path(dir.as_str(), template_name.as_str()),
            target: join_path(dir.as_str(), name),
        };
        let ghost before = jobs@;
        jobs.push(job);
        assert forall|k: int| 0 <= k < i implies {
            &&& #[trigger] jobs@[k].name@ == waybar_config_names()[k]
            &&& jobs@[k].target@ == path_join(dir@, waybar_config_names()[k])
            &&& jobs@[k].template@ == path_join(dir@, waybar_config_names()[k] + ".template"@)
        } by {
            assert(jobs@[k] == before[k]);
            assert(before[k].name@ == waybar_config_names()[k]);
        }
        assert(jobs@[i as int].name@ == waybar_config_names()[i as int]);
        assert(jobs@[i as int].target@ == path_join(dir@, waybar_config_names()[i as int]));
        assert(jobs@[i as int].template@ == path_join(dir@, waybar_config_names()[i as int] + ".template"@));
        i += 1;
    }
    jobs
}

/// What the wizard does for one Waybar config.
#[derive(Debug, PartialEq, Eq, Structural)]
pub enum WaybarConfigAction {
    /// Copy the template's contents into the missing config.
    CopyTemplate,
    /// Leave the existing config alone and say so.
    AlreadyPresent,
    /// Nothing to unpack.
    Skip,
}

/// A config is unpacked only where its template exists and the config does
/// not; an existing config is never overwritten.
pub fn waybar_config_action(template_exists: bool, target_exists: bool) -> (res: WaybarConfigAction)
    ensures
        res == if template_exists && !target_exists {
            WaybarConfigAction::CopyTemplate
        } else if target_exists {
            WaybarConfigAction::AlreadyPresent
        } else {
            WaybarConfigAction::Skip
        },
{
    if template_exists && !target_exists {
        WaybarConfigAction::CopyTemplate
    } else if target_exists {
        WaybarConfigAction::AlreadyPresent
    } else {
        WaybarConfigAction::Skip
    }
}

/// The overrides that make LibreWolf usable with everyday sites.
pub const LIBREWOLF_OVERRIDES: &'static str = "\n        defaultPref(\"network.captive-portal-service.enabled\", true);\n        defaultPref(\"privacy.resistFingerprinting.letterboxing\", false);\n        defaultPref(\"privacy.resistFingerprinting\", false);\n        defaultPref(\"webgl.disabled\", false);\n        defaultPref(\"privacy.clearOnShutdown.history\", false);\n        defaultPref(\"privacy.clearOnShutdown.cookies\", false);\n    ";

/// The overrides keep captive-portal detection on and switch off
/// letterboxing, fingerprinting resistance, the WebGL block, and the clearing
/// of history and cookies at shutdown.
pub proof fn lemma_librewolf_overrides()
    ensures
        matches_at(LIBREWOLF_OVERRIDES@, "defaultPref(\"network.captive-portal-service.enabled\", true);"@, 9),
        matches_at(LIBREWOLF_OVERRIDES@, "defaultPref(\"privacy.resistFingerprinting.letterboxing\", false);"@, 78),
        matches_at(LIBREWOLF_OVERRIDES@, "defaultPref(\"privacy.resistFingerprinting\", false);"@, 151),
        matches_at(LIBREWOLF_OVERRIDES@, "defaultPref(\"webgl.disabled\", false);"@, 211),
        matches_at(LIBREWOLF_OVERRIDES@, "defaultPref(\"privacy.clearOnShutdown.history\", false);"@, 257),
        matches_at(LIBREWOLF_OVERRIDES@, "defaultPref(\"privacy.clearOnShutdown.cookies\", false);"@, 320),
{
    reveal_strlit("\n        defaultPref(\"network.captive-portal-service.enabled\", true);\n        defaultPref(\"privacy.resistFingerprinting.letterboxing\", false);\n        defaultPref(\"privacy.resistFingerprinting\", false);\n        defaultPref(\"webgl.disabled\", false);\n        defaultPref(\"privacy.clearOnShutdown.history\", false);\n        defaultPref(\"privacy.clearOnShutdown.cookies\", false);\n    ");
    reveal_strlit("defaultPref(\"network.captive-portal-service.enabled\", true);");
    assert(LIBREWOLF_OVERRIDES@.subrange(9, 69) =~= "defaultPref(\"network.captive-portal-service.enabled\", true);"@);
    reveal_strlit("defaultPref(\"privacy.resistFingerprinting.letterboxing\", false);");
    assert(LIBREWOLF_OVERRIDES@.subrange(78, 142) =~= "defaultPref(\"privacy.resistFingerprinting.letterboxing\", false);"@);
    reveal_strlit("defaultPref(\"privacy.resistFingerprinting\", false);");
    assert(LIBREWOLF_OVERRIDES@.subrange(151, 202) =~= "defaultPref(\"privacy.resistFingerprinting\", false);"@);
    reveal_strlit("defaultPref(\"webgl.disabled\", false);");
    assert(LIBREWOLF_OVERRIDES@.subrange(211, 248) =~= "defaultPref(\"webgl.disabled\", false);"@);
    reveal_strlit("defaultPref(\"privacy.clearOnShutdown.history\", false);");
    assert(LIBREWOLF_OVERRIDES@.subrange(257, 311) =~= "defaultPref(\"privacy.clearOnShutdown.history\", false);"@);
    reveal_strlit("defaultPref(\"privacy.clearOnShutdown.cookies\", false);");
    assert(LIBREWOLF_OVERRIDES@.subrange(320, 374) =~= "defaultPref(\"privacy.clearOnShutdown.cookies\", false);"@);
}

/// A command to run: a program and its arguments.
pub struct CommandLine {
    pub program: &'static str,
    pub args: Vec<&'static str>,
}

/// The program and arguments of a command as character sequences.
pub open spec fn command_text(c: CommandLine) -> (Seq<char>, Seq<Seq<char>>) {
    (c.program@, c.args@.map_values(|a: &str| a@))
}

/// The commands that make LibreWolf the default browser: one `xdg-mime`
/// call per web MIME type, then `xdg-settings`.
pub open spec fn librewolf_default_commands() -> Seq<(Seq<char>, Seq<Seq<char>>)> {
    seq![
        ("xdg-mime"@, seq!["default"@, "librewolf.desktop"@, "text/html"@]),
        ("xdg-mime"@, seq!["default"@, "librewolf.desktop"@, "x-scheme-handler/http"@]),
        ("xdg-mime"@, seq!["default"@, "librewolf.desktop"@, "x-scheme-handler/https"@]),
        ("xdg-settings"@, seq!["set"@, "default-web-browser"@, "librewolf.desktop"@]),
    ]
}

/// LibreWolf becomes the default for each of the three web MIME types,
/// `text/html`, `x-scheme-handler/http` and `x-scheme-handler/https`: one
/// `xdg-mime default librewolf.desktop` command for each, then the default
/// web browser setting.
pub proof fn lemma_librewolf_defaults()
    ensures
        librewolf_default_commands().len() == 4,
        exists|i: int|
            0 <= i < 3 && #[trigger] librewolf_default_commands()[i] == (
                "xdg-mime"@,
                seq!["default"@, "librewolf.desktop"@, "text/html"@],
            ),
        exists|i: int|
            0 <= i < 3 && #[trigger] librewolf_default_commands()[i] == (
                "xdg-mime"@,
                seq!["default"@, "librewolf.desktop"@, "x-scheme-handler/http"@],
            ),
        exists|i: int|
            0 <= i < 3 && #[trigger] librewolf_default_commands()[i] == (
                "xdg-mime"@,
                seq!["default"@, "librewolf.desktop"@, "x-scheme-handler/https"@],
            ),
        forall|i: int|
            0 <= i < 3 ==> (#[trigger] librewolf_default_commands()[i]).0 == "xdg-mime"@
                && librewolf_default_commands()[i].1.len() == 3,
        librewolf_default_commands()[3] == (
            "xdg-settings"@,
            seq!["set"@, "default-web-browser"@, "librewolf.desktop"@],
        ),
{
    let cmds = librewolf_default_commands();
    assert(cmds[0] == ("xdg-mime"@, seq!["default"@, "librewolf.desktop"@, "text/html"@]));
    assert(cmds[1] == ("xdg-mime"@, seq!["default"@, "librewolf.desktop"@, "x-scheme-handler/http"@]));
    assert(cmds[2] == ("xdg-mime"@, seq!["default"@, "librewolf.desktop"@, "x-scheme-handler/https"@]));
}

/// How the wizard sets up LibreWolf: the profile directory to create, the
/// overrides file and its contents, and the commands to run.
pub struct LibrewolfPlan {
    pub dir: String,
    pub override_file: String,
    pub config: &'static str,
    pub commands: Vec<CommandLine>,
}

/// The LibreWolf setup below the home directory `home`.
pub fn librewolf_plan(home: &str) -> (res: LibrewolfPlan)
    ensures
        res.dir@ == path_join(home@, ".librewolf"@),
        res.override_file@ == path_join(res.dir@, "librewolf.overrides.cfg"@),
        res.config@ == LIBREWOLF_OVERRIDES@,
        res.commands@.map_values(|c: CommandLine| command_text(c)) == librewolf_default_commands(),
{
    let dir = join_path(home, ".librewolf");
    let override_file = join_path(dir.as_str(), "librewolf.overrides.cfg");
    let commands = vec![
        CommandLine { program: "xdg-mime", args: vec!["default", "librewolf.desktop", "text/html"] },
        CommandLine {
            program: "xdg-mime",
            args: vec!["default", "librewolf.desktop", "x-scheme-handler/http"],
        },
        CommandLine {
            program: "xdg-mime",
            args: vec!["default", "librewolf.desktop", "x-scheme-handler/https"],
        },
        CommandLine {
            program: "xdg-settings",
            args: vec!["set", "default-web-browser", "librewolf.desktop"],
        },
    ];
    proof {
        let got = commands@.map_values(|c: CommandLine| command_text(c));
        assert forall|i: int| 0 <= i < 4 implies got[i] == librewolf_default_commands()[i] by {
            assert(commands@[i].args@.map_values(|a: &str| a@) =~= librewolf_default_commands()[i].1);
        }
        assert(got =~= librewolf_default_commands());
    }
    LibrewolfPlan { dir, override_file, config: LIBREWOLF_OVERRIDES, commands }
}


/// Where the wizard keeps the central config and the wallpapers.
pub struct SecretsPaths {
    /// The directory of the central config.
    pub config_dir: String,
    /// The central `config.toml`.
    pub config_path: String,
    /// Where a file blocking the config directory is moved.
    pub backup_path: String,
    /// The wallpaper directory.
    pub wallpaper_dir: String,
}

/// The config and wallpaper paths below the home directory `home`.
pub fn secrets_paths(home: &str) -> (res: SecretsPaths)
    ensures
        res.config_dir@ == path_join(home@, ".config/rust-dotfiles"@),
        res.config_path@ == path_join(res.config_dir@, "config.toml"@),
        res.backup_path@ == res.config_dir@ + ".bak"@,
        res.wallpaper_dir@ == path_join(home@, "Pictures/Wallpapers"@),
{
    let config_dir = join_path(home, ".config/rust-dotfiles");
    let config_path = join_path(config_dir.as_str(), "config.toml");
    let mut backup_path = config_dir.clone();
    backup_path.append(".bak");
    let wallpaper_dir = join_path(home, "Pictures/Wallpapers");
    SecretsPaths { config_dir, config_path, backup_path, wallpaper_dir }
}

/// What the wizard does about the config directory.
#[derive(Debug, PartialEq, Eq, Structural)]
pub enum ConfigDirAction {
    /// The directory is there: use it.
    Keep,
    /// A file stands where the directory belongs: move it aside, then create
    /// the directory.
    BackupAndCreate,
    /// Nothing is there: create the directory.
    Create,
}

/// Decides what to do about the config directory from what stands at its
/// path.
pub fn config_dir_action(present: bool, is_dir: bool) -> (res: ConfigDirAction)
    ensures
        res == if !present {
            ConfigDirAction::Create
        } else if is_dir {
            ConfigDirAction::Keep
        } else {
            ConfigDirAction::BackupAndCreate
        },
{
    if !present {
        ConfigDirAction::Create
    } else if is_dir {
        ConfigDirAction::Keep
    } else {
        ConfigDirAction::BackupAndCreate
    }
}

/// Whether an existing config still waits for a Finnhub key, so that the
/// wizard asks for one.
pub fn config_needs_finnhub_key(contents: &str) -> (res: bool)
    ensures
        res == contains(contents@, FINNHUB_MARKER@),
{
    contains_str(contents, FINNHUB_MARKER)
}

/// A built file qualifies for `~/.cargo/bin`: a regular file with an execute
/// bit, not hidden, without an extension, and one of the binaries the app
/// declares.
pub open spec fn is_syncable_binary(
    is_file: bool,
    mode: Option<u32>,
    file_name: Seq<char>,
    has_extension: bool,
    expected: Seq<Seq<char>>,
) -> bool {
    &&& is_file
    &&& mode matches Some(m) && m & 0o111u32 != 0
    &&& !(file_name.len() > 0 && file_name[0] == '.')
    &&& !has_extension
    &&& expected.contains(file_name)
}

/// A file qualifies exactly when it is a regular file that its owner, its
/// group or anyone else may execute, whose name does not start with `.` and
/// has no extension, and which the app lists among its binaries.
pub proof fn lemma_syncable_binary(
    is_file: bool,
    mode: Option<u32>,
    file_name: Seq<char>,
    has_extension: bool,
    expected: Seq<Seq<char>>,
)
    ensures
        is_syncable_binary(is_file, mode, file_name, has_extension, expected) <==> {
            &&& is_file
            &&& mode matches Some(m) && (m & 0o100u32 != 0 || m & 0o010u32 != 0 || m & 0o001u32
                != 0)
            &&& (file_name.len() == 0 || file_name[0] != '.')
            &&& !has_extension
            &&& exists|i: int| 0 <= i < expected.len() && expected[i] == file_name
        },
{
    if let Some(m) = mode {
        assert((m & 0o111u32 != 0) <==> (m & 0o100u32 != 0 || m & 0o010u32 != 0 || m & 0o001u32
            != 0)) by (bit_vector);
    }
}

/// Decides whether a file of an app's release directory is one of its
/// binaries to install. `mode` is the file's permission bits, `None` when
/// they could not be read.
pub fn binary_qualifies(
    is_file: bool,
    mode: Option<u32>,
    file_name: &str,
    has_extension: bool,
    expected: &Vec<String>,
) -> (res: bool)
    ensures
        res == is_syncable_binary(
            is_file,
            mode,
            file_name@,
            has_extension,
            texts_of(expected@),
        ),
{
    if !is_file {
        return false;
    }
    let executable = match mode {
        Some(m) => m & 0o111u32 != 0,
        None => false,
    };
    if !executable {
        return false;
    }
    let nv = chars_of(file_name);
    if nv.len() > 0 && nv[0] == '.' {
        return false;
    }
    if has_extension {
        return false;
    }
    let mut i: usize = 0;
    while i < expected.len()
        invariant
            i <= expected@.len(),
            forall|k: int| 0 <= k < i ==> expected@[k]@ != file_name@,
            is_file,
            !has_extension,
            mode matches Some(m) && m & 0o111u32 != 0,
            !(file_name@.len() > 0 && file_name@[0] == '.'),
        decreases expected@.len() - i,
    {
        if equals_str(expected[i].as_str(), file_name) {
            assert(texts_of(expected@)[i as int] == file_name@);
            assert(texts_of(expected@).contains(file_name@));
            return true;
        }
        i += 1;
    }
    assert(!texts_of(expected@).contains(file_name@)) by {
        if texts_of(expected@).contains(file_name@) {
            let k = choose|k: int|
                0 <= k < texts_of(expected@).len() && texts_of(expected@)[k] == file_name@;
            assert(expected@[k]@ == file_name@);
        }
    }
    false
}

/// Whether a built binary replaces the installed one: when the build is newer,
/// or when the installed one's time cannot be read (it is missing); never
/// when only the build's time cannot be read. Times are nanoseconds from the
/// Unix epoch, negative before it.
pub fn binary_needs_update(compiled: Option<i128>, installed: Option<i128>) -> (res: bool)
    ensures
        res == match (compiled, installed) {
            (Some(c), Some(t)) => c > t,
            (_, None) => true,
            _ => false,
        },
{
    match (compiled, installed) {
        (Some(c), Some(t)) => c > t,
        (_, None) => true,
        _ => false,
    }
}

/// The dotfiles and config directories linked from the repository into the
/// home directory, each at the same relative path on both sides.
pub open spec fn dotfile_entries() -> Seq<Seq<char>> {
    seq![
        ".tmux.conf"@,
        ".profile"@,
        ".zshrc"@,
        ".config/waybar"@,
        ".config/sway"@,
        ".config/hypr"@,
        ".config/niri"@,
        ".config/rofi"@,
        ".config/ghostty"@,
        ".config/fastfetch"@,
        ".config/gtk-3.0"@,
        ".config/gtk-4.0"@,
        ".config/environment.d"@,
        ".config/mako"@,
    ]
}

/// The links cover exactly these fourteen paths: the shell and Tmux
/// dotfiles and the config directories of Waybar, Sway, Hyprland, niri,
/// Rofi, Ghostty, fastfetch, GTK 3 and 4, `environment.d` and mako.
pub proof fn lemma_dotfile_entries()
    ensures
        dotfile_entries().len() == 14,
        dotfile_entries().contains(".tmux.conf"@),
        dotfile_entries().contains(".profile"@),
        dotfile_entries().contains(".zshrc"@),
        dotfile_entries().contains(".config/waybar"@),
        dotfile_entries().contains(".config/sway"@),
        dotfile_entries().contains(".config/hypr"@),
        dotfile_entries().contains(".config/niri"@),
        dotfile_entries().contains(".config/rofi"@),
        dotfile_entries().contains(".config/ghostty"@),
        dotfile_entries().contains(".config/fastfetch"@),
        dotfile_entries().contains(".config/gtk-3.0"@),
        dotfile_entries().contains(".config/gtk-4.0"@),
        dotfile_entries().contains(".config/environment.d"@),
        dotfile_entries().contains(".config/mako"@),
{
    let e = dotfile_entries();
    assert(e[0] == ".tmux.conf"@);
    assert(e[1] == ".profile"@);
    assert(e[2] == ".zshrc"@);
    assert(e[3] == ".config/waybar"@);
    assert(e[4] == ".config/sway"@);
    assert(e[5] == ".config/hypr"@);
    assert(e[6] == ".config/niri"@);
    assert(e[7] == ".config/rofi"@);
    assert(e[8] == ".config/ghostty"@);
    assert(e[9] == ".config/fastfetch"@);
    assert(e[10] == ".config/gtk-3.0"@);
    assert(e[11] == ".config/gtk-4.0"@);
    assert(e[12] == ".config/environment.d"@);
    assert(e[13] == ".config/mako"@);
}

/// A symbolic link to create: the link at `dest` points to `src`.
pub struct Link {
    pub src: String,
    pub dest: String,
}

/// The links from the repository at `repo_root` into the home directory
/// `home`, one per dotfile entry, in order.
pub fn dotfile_links(home: &str, repo_root: &str) -> (res: Vec<Link>)
    ensures
        res@.len() == dotfile_entries().len(),
        forall|i: int|
            0 <= i < res@.len() ==> {
                &&& #[trigger] res@[i].src@ == path_join(repo_root@, dotfile_entries()[i])
                &&& res@[i].dest@ == path_join(home@, dotfile_entries()[i])
            },
{
    let entries: Vec<&'static str> = vec![
        ".tmux.conf",
        ".profile",
        ".zshrc",
        ".config/waybar",
        ".config/sway",
        ".config/hypr",
        ".config/niri",
        ".config/rofi",
        ".config/ghostty",
        ".config/fastfetch",
        ".config/gtk-3.0",
        ".config/gtk-4.0",
        ".config/environment.d",
        ".config/mako",
    ];
    assert(entries@.map_values(|e: &str| e@) =~= dotfile_entries());
    let mut links: Vec<Link> = Vec::new();
    let mut i: usize = 0;
    while i < entries.len()
        invariant
            entries@.map_values(|e: &str| e@) == dotfile_entries(),
            i <= entries@.len(),
            links@.len() == i,
            forall|k: int|
                0 <= k < i ==> {
                    &&& #[trigger] links@[k].src@ == path_join(repo_root@, dotfile_entries()[k])
                    &&& links@[k].dest@ == path_join(home@, dotfile_entries()[k])
                },
        decreases entries@.len() - i,
    {
        let e = entries[i];
        assert(e@ == entries@.map_values(|e: &str| e@)[i as int]);
        let link = Link { src: join_path(repo_root, e), dest: join_path(home, e) };
        let ghost before = links@;
        links.push(link);
        assert forall|k: int| 0 <= k < i + 1 implies {
            &&& #[trigger] links@[k].src@ == path_join(repo_root@, dotfile_entries()[k])
            &&& links@[k].dest@ == path_join(home@, dotfile_entries()[k])
        } by {
            if k < i {
                assert(links@[k] == before[k]);
            }
        }
        i += 1;
    }
    links
}


/// The post-install hooks: the Tmux plugin installer to run if present, the
/// Neovim config whose presence means the Neovim plugins are synced, and the
/// command that syncs them.
pub struct FinalizePlan {
    pub tpm_script: String,
    pub nvim_config: String,
    pub nvim: CommandLine,
}

/// The post-install hooks below the home directory `home`.
pub fn finalize_plan(home: &str) -> (res: FinalizePlan)
    ensures
        res.tpm_script@ == path_join(home@, ".tmux/plugins/tpm/bin/install_plugins"@),
        res.nvim_config@ == path_join(home@, ".config/nvim/init.lua"@),
        command_text(res.nvim) == ("nvim"@, seq!["--headless"@, "+Lazy! sync"@, "+qa"@]),
{
    let nvim = CommandLine { program: "nvim", args: vec!["--headless", "+Lazy! sync", "+qa"] };
    assert(nvim.args@.map_values(|a: &str| a@) =~= seq!["--headless"@, "+Lazy! sync"@, "+qa"@]);
    FinalizePlan {
        tpm_script: join_path(home, ".tmux/plugins/tpm/bin/install_plugins"),
        nvim_config: join_path(home, ".config/nvim/init.lua"),
        nvim,
    }
}

} // verus!
