use vstd::prelude::*;

use crate::models::Theme;
use crate::strutil::str_eq;

verus! {

/// The built-in dark theme, used until another theme is saved.
pub fn default_dark_theme() -> (r: Theme)
    ensures
        r.name@ == "Dark Default"@,
        r.primary_bg@ == "#2e2e2e"@,
        r.secondary_bg@ == "#222222"@,
        r.tertiary_bg@ == "#3a3a3a"@,
        r.text_color@ == "#eeeeee"@,
        r.link_color@ == "#4da6ff"@,
        r.link_visited@ == "#b366ff"@,
        r.link_hover@ == "#66ccff"@,
        r.border_color@ == "#444444"@,
{
    Theme {
        name: "Dark Default".to_owned(),
        primary_bg: "#2e2e2e".to_owned(),
        secondary_bg: "#222222".to_owned(),
        tertiary_bg: "#3a3a3a".to_owned(),
        text_color: "#eeeeee".to_owned(),
        link_color: "#4da6ff".to_owned(),
        link_visited: "#b366ff".to_owned(),
        link_hover: "#66ccff".to_owned(),
        border_color: "#444444".to_owned(),
    }
}

/// Index of the first saved theme with the given name, or -1.
pub open spec fn theme_idx(s: Seq<(String, Theme)>, name: Seq<char>) -> int
    decreases s.len(),
{
    if s.len() == 0 {
        -1
    } else if s[0].0@ == name {
        0
    } else {
        let rest = theme_idx(s.drop_first(), name);
        if rest == -1 {
            -1
        } else {
            rest + 1
        }
    }
}

pub broadcast proof fn lemma_theme_idx_bounds(s: Seq<(String, Theme)>, name: Seq<char>)
    ensures
        -1 <= #[trigger] theme_idx(s, name) < s.len(),
        theme_idx(s, name) >= 0 ==> s[theme_idx(s, name)].0@ == name,
        theme_idx(s, name) == -1 ==> forall|j: int| 0 <= j < s.len() ==> s[j].0@ != name,
    decreases s.len(),
{
    if s.len() > 0 && s[0].0@ != name {
        let rest = s.drop_first();
        lemma_theme_idx_bounds(rest, name);
        assert(forall|j: int| 1 <= j < s.len() ==> s[j] == rest[j - 1]);
        if theme_idx(rest, name) == -1 {
            assert forall|j: int| 0 <= j < s.len() implies s[j].0@ != name by {
                if j >= 1 {
                    assert(s[j] == rest[j - 1]);
                }
            }
        }
    }
}

/// Store a theme under its name: replace the first saved theme carrying
/// that name in place, else append a new entry; every other entry is left
/// untouched.  The caller persists the list afterwards.
pub fn save_theme_entry(saved: &mut Vec<(String, Theme)>, theme: Theme)
    ensures
        final(saved)@ == if theme_idx(old(saved)@, theme.name@) == -1 {
            old(saved)@.push((theme.name, theme))
        } else {
            old(saved)@.update(theme_idx(old(saved)@, theme.name@), (theme.name, theme))
        },
{
    proof {
        broadcast use lemma_theme_idx_bounds;
    }
    let name = theme.name.clone();
    let n = saved.len();
    let mut i: usize = 0;
    while i < n
        invariant
            n == saved@.len(),
            saved@ == old(saved)@,
            name == theme.name,
            0 <= i <= n,
            forall|j: int| 0 <= j < i ==> saved@[j].0@ != name@,
        decreases n - i,
    {
        if str_eq(saved[i].0.as_str(), name.as_str()) {
            proof {
                lemma_theme_idx_skip(saved@, name@, i as int);
                assert(saved@.skip(i as int)[0] == saved@[i as int]);
                assert(theme_idx(saved@, theme.name@) == i as int);
            }
            saved.set(i, (name, theme));
            return;
        }
        i = i + 1;
    }
    proof {
        lemma_theme_idx_skip(saved@, name@, n as int);
        assert(theme_idx(saved@, theme.name@) == -1);
    }
    saved.push((name, theme));
}

/// If no saved theme before position `i` has the name, the search on the
/// whole list is the search from `i` on, shifted.
proof fn lemma_theme_idx_skip(s: Seq<(String, Theme)>, name: Seq<char>, i: int)
    requires
        0 <= i <= s.len(),
        forall|j: int| 0 <= j < i ==> s[j].0@ != name,
    ensures
        theme_idx(s, name) == if theme_idx(s.skip(i), name) == -1 {
            -1int
        } else {
            theme_idx(s.skip(i), name) + i
        },
    decreases i,
{
    if i == 0 {
        assert(s.skip(0) =~= s);
    } else {
        let rest = s.drop_first();
        assert(s[0].0@ != name);
        assert forall|j: int| 0 <= j < i - 1 implies rest[j].0@ != name by {
            assert(rest[j] == s[j + 1]);
        }
        lemma_theme_idx_skip(rest, name, i - 1);
        assert(rest.skip(i - 1) =~= s.skip(i));
        assert(theme_idx(s, name) == if theme_idx(rest, name) == -1 {
            -1int
        } else {
            theme_idx(rest, name) + 1
        });
        lemma_theme_idx_bounds(s.skip(i), name);
        let fr = theme_idx(rest, name);
        let fs = theme_idx(s.skip(i), name);
        assert(theme_idx(rest.skip(i - 1), name) == fs);
        if fs == -1 {
            assert(fr == -1);
        } else {
            assert(fr == fs + (i - 1));
        }
    }
}

/// The saved theme with the given name, if any.
pub fn lookup_theme(saved: &Vec<(String, Theme)>, name: &str) -> (r: Option<Theme>)
    ensures
        r is Some <==> theme_idx(saved@, name@) >= 0,
        r matches Some(t) ==> {
            let found = saved@[theme_idx(saved@, name@)].1;
            t.name@ == found.name@ && t.primary_bg@ == found.primary_bg@ && t.secondary_bg@
                == found.secondary_bg@ && t.tertiary_bg@ == found.tertiary_bg@ && t.text_color@
                == found.text_color@ && t.link_color@ == found.link_color@ && t.link_visited@
                == found.link_visited@ && t.link_hover@ == found.link_hover@ && t.border_color@
                == found.border_color@
        },
{
    proof {
        broadcast use lemma_theme_idx_bounds;
    }
    let n = saved.len();
    let mut i: usize = 0;
    while i < n
        invariant
            n == saved@.len(),
            0 <= i <= n,
            forall|j: int| 0 <= j < i ==> saved@[j].0@ != name@,
        decreases n - i,
    {
        if str_eq(saved[i].0.as_str(), name) {
            proof {
                lemma_theme_idx_skip(saved@, name@, i as int);
                assert(saved@.skip(i as int)[0] == saved@[i as int]);
            }
            return Some(saved[i].1.clone());
        }
        i = i + 1;
    }
    proof {
        lemma_theme_idx_skip(saved@, name@, n as int);
    }
    None
}

} // verus!
