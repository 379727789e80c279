//! Where the profile lives: the data directory, the legacy directories that
//! an upgrade copies from, the capture folder, and renamed font families.
use vstd::prelude::*;
use crate::fonts::{id_ok, valid_id, texts_view};
use crate::model::{Preferences, starts_with_spec};
use crate::text::{chars_of, owned, push_str, starts_with, string_of};

verus! {

/// The path `name` joined onto `base`, as `Path::join` forms it.
pub uninterp spec fn path_join(base: Seq<char>, name: Seq<char>) -> Seq<char>;

/// Whether two paths are equal component by component, as `Path`'s `==` compares them.
pub uninterp spec fn path_eq(a: Seq<char>, b: Seq<char>) -> bool;

/// A single plain folder name: ASCII letters, digits and spaces only.
pub open spec fn plain_name(name: Seq<char>) -> bool {
    &&& name.len() > 0
    &&& forall|i: int| 0 <= i < name.len() ==> {
        let c = #[trigger] name[i];
        ('a' <= c <= 'z') || ('A' <= c <= 'Z') || ('0' <= c <= '9') || c == ' '
    }
}

/// `s` ends with `tail`.
pub open spec fn ends_with(s: Seq<char>, tail: Seq<char>) -> bool {
    tail.len() <= s.len() && s.subrange(s.len() - tail.len(), s.len() as int) == tail
}

/// Calls `Path::join`, then `to_string_lossy`. Claims that the result depends
/// on `base` and `name` alone (both are UTF-8, so nothing is lost), and that
/// a plain relative name, which `join` appends after a separator where one is
/// needed, ends the result.
#[verifier::external_body]
pub(crate) fn join_path(base: &str, name: &str) -> (r: String)
    ensures
        r@ == path_join(base@, name@),
        plain_name(name@) ==> ends_with(r@, name@),
{
    std::path::Path::new(base).join(name).to_string_lossy().into_owned()
}

/// Calls `==` on two `Path`s. Claims that the answer depends on the two
/// texts alone.
#[verifier::external_body]
pub(crate) fn same_path(a: &str, b: &str) -> (r: bool)
    ensures
        r == path_eq(a@, b@),
{
    std::path::Path::new(a) == std::path::Path::new(b)
}

/// The folder names that earlier releases used.
pub open spec fn legacy_names() -> Seq<Seq<char>> {
    seq!["OnPen"@, "LayerPen"@, "InkLatch"@, "Inklach"@, "MonitorInk"@, "Monitor Ink"@]
}

/// The legacy profile directories under `config`, then `app_config` unless it
/// is already among them.
pub open spec fn legacy_dirs(config: Seq<char>, app_config: Seq<char>) -> Seq<Seq<char>> {
    let joined = legacy_names().map_values(|n: Seq<char>| path_join(config, n));
    if exists|i: int| 0 <= i < joined.len() && path_eq(#[trigger] joined[i], app_config) {
        joined
    } else {
        joined.push(app_config)
    }
}

fn legacy_list() -> (r: Vec<String>)
    ensures
        texts_view(r@) == legacy_names(),
{
    let mut r: Vec<String> = Vec::new();
    r.push(owned("OnPen"));
    r.push(owned("LayerPen"));
    r.push(owned("InkLatch"));
    r.push(owned("Inklach"));
    r.push(owned("MonitorInk"));
    r.push(owned("Monitor Ink"));
    assert(texts_view(r@) =~= legacy_names());
    r
}

/// Two texts cannot both end with `x` and with `y` when the two differ in
/// their `k`-th character from the end.
proof fn lemma_suffix_clash(s: Seq<char>, x: Seq<char>, y: Seq<char>, k: int)
    requires
        0 <= k < x.len(),
        k < y.len(),
        x[x.len() - 1 - k] != y[y.len() - 1 - k],
    ensures
        !(ends_with(s, x) && ends_with(s, y)),
{
    if ends_with(s, x) && ends_with(s, y) {
        assert(s.subrange(s.len() - x.len(), s.len() as int)[x.len() - 1 - k] == s[s.len() - 1 - k]);
        assert(s.subrange(s.len() - y.len(), s.len() as int)[y.len() - 1 - k] == s[s.len() - 1 - k]);
    }
}

/// The legacy folder names are plain, and no text ends with two of them.
proof fn lemma_legacy_names_apart(s: Seq<char>, a: int, b: int)
    requires
        0 <= a < b < legacy_names().len(),
    ensures
        plain_name(legacy_names()[a]),
        plain_name(legacy_names()[b]),
        !(ends_with(s, legacy_names()[a]) && ends_with(s, legacy_names()[b])),
{
    reveal_strlit("OnPen");
    reveal_strlit("LayerPen");
    reveal_strlit("InkLatch");
    reveal_strlit("Inklach");
    reveal_strlit("MonitorInk");
    reveal_strlit("Monitor Ink");
    let x = legacy_names()[a];
    let y = legacy_names()[b];
    assert(plain_name(x));
    assert(plain_name(y));
    if ends_with(s, x) && ends_with(s, y) {
        if a == 0 && b == 1 {
            lemma_suffix_clash(s, x, y, 3);
        } else if a == 2 && b == 3 {
            lemma_suffix_clash(s, x, y, 2);
        } else if a == 4 && b == 5 {
            lemma_suffix_clash(s, x, y, 3);
        } else {
            lemma_suffix_clash(s, x, y, 0);
        }
    }
}

/// The profile directory and the legacy directories to upgrade from. An
/// explicit override is used alone; otherwise the profile is
/// `config/Pointory`.
pub fn directories(config: &str, app_config: &str, custom: Option<String>) -> (r: (String, Vec<String>))
    ensures
        custom matches Some(c) ==> r.0@ == c@ && r.1@.len() == 0,
        custom is None ==> r.0@ == path_join(config@, "Pointory"@) && texts_view(r.1@) == legacy_dirs(
            config@,
            app_config@,
        ),
        // The folders of earlier releases are all different.
        custom is None ==> forall|a: int, b: int|
            0 <= a < b < legacy_names().len() ==> r.1@[a]@ != r.1@[b]@,
{
    if let Some(c) = custom {
        return (c, Vec::new());
    }
    let names = legacy_list();
    let ghost joined = legacy_names().map_values(|n: Seq<char>| path_join(config@, n));
    let mut legacy: Vec<String> = Vec::new();
    let mut i: usize = 0;
    while i < names.len()
        invariant
            i <= names@.len(),
            texts_view(names@) == legacy_names(),
            joined == legacy_names().map_values(|n: Seq<char>| path_join(config@, n)),
            texts_view(legacy@) == joined.take(i as int),
            forall|j: int| 0 <= j < i ==> plain_name(legacy_names()[j]) ==> ends_with(
                #[trigger] legacy@[j]@,
                legacy_names()[j],
            ),
        decreases names.len() - i,
    {
        let p = join_path(config, names[i].as_str());
        assert(legacy_names()[i as int] == names@[i as int]@);
        proof {
            assert(texts_view(legacy@.push(p)) =~= texts_view(legacy@).push(p@));
            assert(joined.take(i + 1) =~= joined.take(i as int).push(joined[i as int]));
        }
        legacy.push(p);
        i += 1;
    }
    assert(joined.take(names.len() as int) =~= joined);
    proof {
        assert forall|a: int, b: int| 0 <= a < b < legacy_names().len() implies legacy@[a]@
            != legacy@[b]@ by {
            lemma_legacy_names_apart(legacy@[a]@, a, b);
        }
    }
    let ghost six = legacy@;
    let mut found = false;
    let mut k: usize = 0;
    while k < legacy.len()
        invariant
            k <= legacy@.len(),
            texts_view(legacy@) == joined,
            found == exists|j: int| 0 <= j < k && path_eq(#[trigger] joined[j], app_config@),
            legacy@ == six,
        decreases legacy.len() - k,
    {
        assert(joined[k as int] == legacy@[k as int]@);
        if same_path(legacy[k].as_str(), app_config) {
            found = true;
        }
        k += 1;
    }
    if !found {
        let a = owned(app_config);
        proof {
            assert(texts_view(legacy@.push(a)) =~= texts_view(legacy@).push(a@));
        }
        legacy.push(a);
    }
    (join_path(config, "Pointory"), legacy)
}

/// The first override present, in order of precedence.
pub fn override_directory<T>(first: Option<T>, second: Option<T>, third: Option<T>) -> (r: Option<T>)
    ensures
        r == (if first is Some {
            first
        } else if second is Some {
            second
        } else {
            third
        }),
{
    if first.is_some() {
        first
    } else if second.is_some() {
        second
    } else {
        third
    }
}

/// A text font installed under the previous family prefix is renamed to the
/// current prefix; any other font name is kept.
pub open spec fn upgraded_font(font: Seq<char>) -> Seq<char> {
    let prefix = "OnPenFont-"@;
    if starts_with_spec(font, prefix) && id_ok(font.skip(prefix.len() as int)) {
        "PointoryFont-"@ + font.skip(prefix.len() as int)
    } else {
        font
    }
}

/// Renames a font family of the previous release, as `upgraded_font` says.
pub fn upgrade_font_name(font: String) -> (r: String)
    ensures
        r@ == upgraded_font(font@),
{
    let cs = chars_of(font.as_str());
    let prefix = chars_of("OnPenFont-");
    if !starts_with(&cs, &prefix) {
        return font;
    }
    let mut rest: Vec<char> = Vec::new();
    let mut i = prefix.len();
    while i < cs.len()
        invariant
            prefix.len() <= i <= cs.len(),
            rest@ == cs@.subrange(prefix@.len() as int, i as int),
        decreases cs.len() - i,
    {
        rest.push(cs[i]);
        i += 1;
        assert(rest@ =~= cs@.subrange(prefix@.len() as int, i as int));
    }
    assert(rest@ =~= cs@.skip(prefix@.len() as int));
    let id = string_of(&rest);
    if valid_id(id.as_str()) {
        let mut r = owned("PointoryFont-");
        push_str(&mut r, id.as_str());
        r
    } else {
        font
    }
}

/// Windows compares folders without regard to separators, a trailing
/// separator or ASCII case: `/` becomes `\`, trailing `\` are dropped, and
/// the texts are compared ignoring ASCII case.
pub open spec fn windows_same_folder(dir: Seq<char>, old: Seq<char>) -> bool {
    let d = dir.map_values(|c: char| if c == '/' {
        '\\'
    } else {
        c
    });
    let t = d.take(d.len() - trailing_backslashes(d));
    t.len() == old.len() && forall|i: int| 0 <= i < t.len() ==> ascii_lower(#[trigger] t[i]) == ascii_lower(old[i])
}

pub open spec fn ascii_lower(c: char) -> char {
    if 'A' <= c <= 'Z' {
        ((c as u8) + 32) as char
    } else {
        c
    }
}

pub open spec fn trailing_backslashes(s: Seq<char>) -> nat
    decreases s.len(),
{
    if s.len() > 0 && s.last() == '\\' {
        1 + trailing_backslashes(s.drop_last())
    } else {
        0
    }
}

/// ASCII lower case of `c`.
pub fn lower_char(c: char) -> (r: char)
    ensures
        r == ascii_lower(c),
{
    if 'A' <= c && c <= 'Z' {
        ((c as u8) + 32) as char
    } else {
        c
    }
}

/// Whether Windows takes `dir` and `old` for the same folder.
pub fn windows_same(dir: &str, old: &str) -> (r: bool)
    ensures
        r == windows_same_folder(dir@, old@),
{
    let cs = chars_of(dir);
    let o = chars_of(old);
    let ghost d = dir@.map_values(|c: char| if c == '/' {
        '\\'
    } else {
        c
    });
    let mut m: Vec<char> = Vec::new();
    let mut i: usize = 0;
    while i < cs.len()
        invariant
            i <= cs@.len(),
            cs@ == dir@,
            d == dir@.map_values(|c: char| if c == '/' {
                '\\'
            } else {
                c
            }),
            m@ == d.take(i as int),
        decreases cs.len() - i,
    {
        m.push(if cs[i] == '/' {
            '\\'
        } else {
            cs[i]
        });
        i += 1;
        assert(m@ =~= d.take(i as int));
    }
    assert(d.take(cs.len() as int) =~= d);
    // Drop trailing backslashes.
    let mut n = m.len();
    while n > 0 && m[n - 1] == '\\'
        invariant
            n <= m@.len(),
            trailing_backslashes(m@) == (m@.len() - n) + trailing_backslashes(m@.take(n as int)),
        decreases n,
    {
        assert(m@.take(n as int).drop_last() =~= m@.take(n - 1));
        n -= 1;
    }
    assert(trailing_backslashes(m@.take(n as int)) == 0);
    assert(m@.take(m@.len() - trailing_backslashes(m@)) == m@.take(n as int));
    if n != o.len() {
        return false;
    }
    let mut j: usize = 0;
    while j < n
        invariant
            j <= n,
            n == o@.len(),
            n <= m@.len(),
            o@ == old@,
            m@ == d,
            d == dir@.map_values(|c: char| if c == '/' {
                '\\'
            } else {
                c
            }),
            m@.take(m@.len() - trailing_backslashes(m@)) == m@.take(n as int),
            forall|k: int| 0 <= k < j ==> ascii_lower(m@[k]) == ascii_lower(o@[k]),
        decreases n - j,
    {
        if lower_char(m[j]) != lower_char(o[j]) {
            assert(m@.take(n as int)[j as int] == m@[j as int]);
            return false;
        }
        j += 1;
    }
    proof {
        let t = m@.take(n as int);
        assert forall|k: int| 0 <= k < t.len() implies ascii_lower(#[trigger] t[k]) == ascii_lower(
            o@[k],
        ) by {
            assert(t[k] == m@[k]);
        }
    }
    true
}

/// The capture folder is the same as one of the legacy folders under
/// `pictures`.
pub open spec fn is_legacy_capture_dir(dir: Seq<char>, pictures: Seq<char>, windows: bool) -> bool {
    exists|i: int|
        0 <= i < legacy_names().len() && (path_eq(dir, #[trigger] path_join(pictures, legacy_names()[i]))
            || (windows && windows_same_folder(dir, path_join(pictures, legacy_names()[i]))))
}

impl Preferences {
    /// Gives a new profile its capture folder (`captures` in an overridden
    /// profile, else `Pointory` under the pictures folder), and moves a
    /// capture folder of an earlier release to `Pointory`. A folder the user
    /// chose is kept. `windows` selects the Windows comparison of folders.
    pub fn migrate_capture_dir(&mut self, pictures: &str, profile: Option<&str>, windows: bool)
        ensures
            old(self).capture_dir@.len() == 0 ==> final(self).capture_dir@ == match profile {
                Some(p) => path_join(p@, "captures"@),
                None => path_join(pictures@, "Pointory"@),
            },
            old(self).capture_dir@.len() > 0 && is_legacy_capture_dir(
                old(self).capture_dir@,
                pictures@,
                windows,
            ) ==> final(self).capture_dir@ == path_join(pictures@, "Pointory"@),
            old(self).capture_dir@.len() > 0 && !is_legacy_capture_dir(
                old(self).capture_dir@,
                pictures@,
                windows,
            ) ==> final(self).capture_dir == old(self).capture_dir,
    {
        if self.capture_dir.as_str().is_empty() {
            self.capture_dir = match profile {
                Some(p) => join_path(p, "captures"),
                None => join_path(pictures, "Pointory"),
            };
            return;
        }
        let names = legacy_list();
        let mut same = false;
        let mut i: usize = 0;
        while i < names.len()
            invariant
                i <= names@.len(),
                texts_view(names@) == legacy_names(),
                self.capture_dir == old(self).capture_dir,
                same == exists|j: int|
                    0 <= j < i && (path_eq(
                        self.capture_dir@,
                        #[trigger] path_join(pictures@, legacy_names()[j]),
                    ) || (windows && windows_same_folder(
                        self.capture_dir@,
                        path_join(pictures@, legacy_names()[j]),
                    ))),
            decreases names.len() - i,
        {
            let old_dir = join_path(pictures, names[i].as_str());
            assert(legacy_names()[i as int] == names@[i as int]@);
            if same_path(self.capture_dir.as_str(), old_dir.as_str()) || (windows && windows_same(
                self.capture_dir.as_str(),
                old_dir.as_str(),
            )) {
                same = true;
            }
            i += 1;
        }
        if same {
            self.capture_dir = join_path(pictures, "Pointory");
        }
    }
}

} // verus!
