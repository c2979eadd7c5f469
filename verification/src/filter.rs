//! Which windows may be captured.
//!
//! A window is never captured while its title names something private
//! (unless that protection is switched off). Beyond that the user may
//! allow only listed applications, or all but listed ones.

use vstd::prelude::*;
use crate::text::{chars_of, contains_chars, has_substring, lowercase, str_eq, to_lowercase};

verus! {

/// The words that mark a window as private; matched against the
/// lowercase title.
pub open spec fn privacy_patterns() -> Seq<Seq<char>> {
    seq![
        "password"@,
        "private"@,
        "incognito"@,
        "bank"@,
        "1password"@,
        "lastpass"@,
        "bitwarden"@,
        "keychain"@,
        "credential"@,
        "secret"@,
        "vault"@,
        "authenticator"@,
        "otp"@,
        "2fa"@,
        "login"@,
        "sign in"@,
        "signin"@,
    ]
}

/// The character sequences of a list of string slices.
pub open spec fn pattern_texts(v: Seq<&'static str>) -> Seq<Seq<char>> {
    v.map_values(|s: &'static str| s@)
}

fn privacy_blacklist() -> (v: Vec<&'static str>)
    ensures
        pattern_texts(v@) == privacy_patterns(),
{
    let v = vec![
        "password",
        "private",
        "incognito",
        "bank",
        "1password",
        "lastpass",
        "bitwarden",
        "keychain",
        "credential",
        "secret",
        "vault",
        "authenticator",
        "otp",
        "2fa",
        "login",
        "sign in",
        "signin",
    ];
    proof {
        assert(pattern_texts(v@) =~= privacy_patterns());
    }
    v
}

/// Whether a text holds one of `entries`.
pub open spec fn holds_entry(text: Seq<char>, entries: Seq<Seq<char>>) -> bool {
    exists|i: int| 0 <= i < entries.len() && has_substring(text, #[trigger] entries[i])
}

/// Whether a window title, whatever its case, holds one of the words
/// that mark a window as private.
pub open spec fn is_private_title(title: Seq<char>) -> bool {
    holds_entry(lowercase(title), privacy_patterns())
}

/// Whether an application name, whatever its case, holds one of the
/// entries of `list`, whatever their case.
pub open spec fn is_listed(app: Seq<char>, list: Seq<Seq<char>>) -> bool {
    exists|i: int|
        0 <= i < list.len() && has_substring(lowercase(app), lowercase(#[trigger] list[i]))
}

/// Whether a title in lowercase holds one of the words that mark a
/// window as private.
pub fn has_private_word(lower_title: &str) -> (r: bool)
    ensures
        r == holds_entry(lower_title@, privacy_patterns()),
{
    let hay = chars_of(lower_title);
    let patterns = privacy_blacklist();
    let mut i: usize = 0;
    while i < patterns.len()
        invariant
            i <= patterns.len(),
            hay@ == lower_title@,
            pattern_texts(patterns@) == privacy_patterns(),
            forall|j: int| 0 <= j < i ==> !has_substring(hay@, #[trigger] privacy_patterns()[j]),
        decreases patterns.len() - i,
    {
        let needle = chars_of(patterns[i]);
        assert(pattern_texts(patterns@)[i as int] == patterns@[i as int]@);
        if contains_chars(&hay, &needle) {
            return true;
        }
        i += 1;
    }
    assert(pattern_texts(patterns@).len() == patterns@.len());
    false
}

/// Whether a name holds one of `entries`, both as they stand.
pub fn names_entry(name: &str, entries: &Vec<String>) -> (r: bool)
    ensures
        r == holds_entry(name@, list_texts(entries@)),
{
    let hay = chars_of(name);
    let mut i: usize = 0;
    while i < entries.len()
        invariant
            i <= entries.len(),
            hay@ == name@,
            forall|j: int| 0 <= j < i ==> !has_substring(hay@, #[trigger] list_texts(entries@)[j]),
        decreases entries.len() - i,
    {
        let needle = chars_of(entries[i].as_str());
        assert(list_texts(entries@)[i as int] == entries@[i as int]@);
        if contains_chars(&hay, &needle) {
            return true;
        }
        i += 1;
    }
    assert(list_texts(entries@).len() == entries@.len());
    false
}

/// The rule a user sets over application names.
#[derive(Debug, Clone, Copy, PartialEq, Eq, Structural)]
pub enum AppFilterMode {
    /// Capture every application.
    Off,
    /// Capture only listed applications.
    Whitelist,
    /// Capture all but listed applications.
    Blacklist,
}

impl AppFilterMode {
    /// The name of a rule in settings.
    pub open spec fn name(self) -> Seq<char> {
        match self {
            AppFilterMode::Off => "none"@,
            AppFilterMode::Whitelist => "whitelist"@,
            AppFilterMode::Blacklist => "blacklist"@,
        }
    }

    /// The rule that a lowercase name stands for: no rule for any name
    /// but those of the two lists.
    pub open spec fn of_name(n: Seq<char>) -> AppFilterMode {
        if n == "whitelist"@ {
            AppFilterMode::Whitelist
        } else if n == "blacklist"@ {
            AppFilterMode::Blacklist
        } else {
            AppFilterMode::Off
        }
    }

    /// The name of this rule in settings.
    pub fn as_str(&self) -> (s: &'static str)
        ensures
            s@ == self.name(),
    {
        match self {
            AppFilterMode::Off => "none",
            AppFilterMode::Whitelist => "whitelist",
            AppFilterMode::Blacklist => "blacklist",
        }
    }

    /// The rule named `s`, whatever its case.
    pub fn from_name(s: &str) -> (m: AppFilterMode)
        ensures
            m == AppFilterMode::of_name(lowercase(s@)),
    {
        let lower = to_lowercase(s);
        let n = lower.as_str();
        if str_eq(n, "whitelist") {
            AppFilterMode::Whitelist
        } else if str_eq(n, "blacklist") {
            AppFilterMode::Blacklist
        } else {
            AppFilterMode::Off
        }
    }
}

impl std::str::FromStr for AppFilterMode {
    type Err = ();

    /// Reads the name of a rule, whatever its case. Every text is read as
    /// some rule, so this never fails.
    fn from_str(s: &str) -> (r: std::result::Result<Self, ()>)
        ensures
            r == Ok::<AppFilterMode, ()>(AppFilterMode::of_name(lowercase(s@))),
    {
        Ok(AppFilterMode::from_name(s))
    }
}

impl Default for AppFilterMode {
    fn default() -> (m: AppFilterMode)
        ensures
            m == AppFilterMode::Off,
    {
        AppFilterMode::Off
    }
}

/// The character sequences of a list of strings.
pub open spec fn list_texts(v: Seq<String>) -> Seq<Seq<char>> {
    v.map_values(|t: String| t@)
}

/// The filter that decides which windows may be captured.
#[derive(Debug, Clone)]
pub struct AppFilter {
    mode: AppFilterMode,
    app_list: Vec<String>,
    use_privacy_blacklist: bool,
}

impl AppFilter {
    /// The user's rule.
    pub closed spec fn rule(self) -> AppFilterMode {
        self.mode
    }

    /// The applications that the user's rule speaks of.
    pub closed spec fn listed(self) -> Seq<Seq<char>> {
        list_texts(self.app_list@)
    }

    /// Whether private windows are protected.
    pub closed spec fn protects_privacy(self) -> bool {
        self.use_privacy_blacklist
    }

    /// Whether the window of application `app` with title `title` may be
    /// captured.
    pub open spec fn allows(self, app: Seq<char>, title: Seq<char>) -> bool {
        &&& !(self.protects_privacy() && is_private_title(title))
        &&& match self.rule() {
            AppFilterMode::Off => true,
            AppFilterMode::Whitelist => is_listed(app, self.listed()),
            AppFilterMode::Blacklist => !is_listed(app, self.listed()),
        }
    }

    /// A filter with the given rule, which protects private windows.
    pub fn new(mode: AppFilterMode, app_list: Vec<String>) -> (f: AppFilter)
        ensures
            f.rule() == mode,
            f.listed() == list_texts(app_list@),
            f.protects_privacy(),
    {
        AppFilter { mode, app_list, use_privacy_blacklist: true }
    }

    /// This filter with the protection of private windows switched on or
    /// off.
    pub fn with_privacy_blacklist(self, enabled: bool) -> (f: AppFilter)
        ensures
            f.rule() == self.rule(),
            f.listed() == self.listed(),
            f.protects_privacy() == enabled,
    {
        AppFilter { mode: self.mode, app_list: self.app_list, use_privacy_blacklist: enabled }
    }

    /// Whether the window of application `app_name` with title
    /// `window_title` may be captured. A private window never may while
    /// the protection is on, whatever the user's rule says.
    pub fn should_capture(&self, app_name: &str, window_title: &str) -> (r: bool)
        ensures
            r == self.allows(app_name@, window_title@),
            self.protects_privacy() && is_private_title(window_title@) ==> !r,
    {
        if self.use_privacy_blacklist && self.matches_privacy_blacklist(window_title) {
            return false;
        }
        match self.mode {
            AppFilterMode::Off => true,
            AppFilterMode::Whitelist => self.is_in_list(app_name),
            AppFilterMode::Blacklist => !self.is_in_list(app_name),
        }
    }

    /// Whether a window title marks the window as private.
    pub fn matches_privacy_blacklist(&self, window_title: &str) -> (r: bool)
        ensures
            r == is_private_title(window_title@),
    {
        let lower = to_lowercase(window_title);
        has_private_word(lower.as_str())
    }

    /// Whether the user's list names the application.
    pub fn is_in_list(&self, app_name: &str) -> (r: bool)
        ensures
            r == is_listed(app_name@, self.listed()),
    {
        let lower = to_lowercase(app_name);
        let mut entries: Vec<String> = Vec::new();
        let mut i: usize = 0;
        while i < self.app_list.len()
            invariant
                i <= self.app_list.len(),
                entries@.len() == i,
                forall|j: int|
                    0 <= j < i ==> (#[trigger] entries@[j])@ == lowercase(self.app_list@[j]@),
            decreases self.app_list.len() - i,
        {
            entries.push(to_lowercase(self.app_list[i].as_str()));
            i += 1;
        }
        let r = names_entry(lower.as_str(), &entries);
        proof {
            let lowered = list_texts(entries@);
            assert(self.listed().len() == self.app_list@.len());
            assert(lowered.len() == entries@.len());
            assert forall|j: int| 0 <= j < lowered.len() implies #[trigger] lowered[j]
                == lowercase(self.listed()[j]) by {
                assert(lowered[j] == entries@[j]@);
                assert(self.listed()[j] == self.app_list@[j]@);
            }
            if r {
                let k = choose|k: int|
                    0 <= k < lowered.len() && has_substring(lower@, #[trigger] lowered[k]);
                assert(has_substring(lowercase(app_name@), lowercase(self.listed()[k])));
            }
            if is_listed(app_name@, self.listed()) {
                let k = choose|k: int|
                    0 <= k < self.listed().len() && has_substring(
                        lowercase(app_name@),
                        lowercase(#[trigger] self.listed()[k]),
                    );
                assert(has_substring(lower@, lowered[k]));
            }
        }
        r
    }

    /// The user's rule.
    pub fn mode(&self) -> (m: AppFilterMode)
        ensures
            m == self.rule(),
    {
        self.mode
    }

    /// The applications that the user's rule speaks of.
    pub fn app_list(&self) -> (l: &Vec<String>)
        ensures
            list_texts(l@) == self.listed(),
    {
        &self.app_list
    }

    /// Replaces the user's rule; the protection of private windows stays
    /// as it is.
    pub fn update(&mut self, mode: AppFilterMode, app_list: Vec<String>)
        ensures
            final(self).rule() == mode,
            final(self).listed() == list_texts(app_list@),
            final(self).protects_privacy() == old(self).protects_privacy(),
    {
        self.mode = mode;
        self.app_list = app_list;
    }
}

impl Default for AppFilter {
    fn default() -> (f: AppFilter)
        ensures
            f.rule() == AppFilterMode::Off,
            f.listed().len() == 0,
            f.protects_privacy(),
    {
        AppFilter { mode: AppFilterMode::Off, app_list: Vec::new(), use_privacy_blacklist: true }
    }
}

/// A running application with a visible window.
#[derive(Debug, Clone)]
pub struct AppInfo {
    pub process_name: String,
    pub window_title: String,
    pub is_foreground: bool,
}

/// The running applications, as far as this library can tell without
/// the help of the operating system: none.
pub fn get_running_apps() -> (apps: Vec<AppInfo>)
    ensures
        apps@.len() == 0,
{
    Vec::new()
}

/// A window that the operating system reports: the name of its process
/// and its title.
pub type ProcessWindow = (String, String);

/// What is shown of a running application.
pub struct AppOutline {
    pub process_name: Seq<char>,
    pub window_title: Seq<char>,
    pub is_foreground: bool,
}

/// The outline of an application.
pub open spec fn app_outline(a: AppInfo) -> AppOutline {
    AppOutline {
        process_name: a.process_name@,
        window_title: a.window_title@,
        is_foreground: a.is_foreground,
    }
}

/// The outlines of a list of applications.
pub open spec fn app_outlines(apps: Seq<AppInfo>) -> Seq<AppOutline> {
    apps.map_values(|a: AppInfo| app_outline(a))
}

/// Whether text `a`, from index `i` on, comes before text `b`, from
/// index `i` on, in the order of the dictionary, characters compared by
/// their code.
pub open spec fn text_before_from(a: Seq<char>, b: Seq<char>, i: int) -> bool
    decreases b.len() - i,
{
    if i < 0 || i >= b.len() {
        false
    } else if i >= a.len() {
        true
    } else if a[i] != b[i] {
        (a[i] as u32) < (b[i] as u32)
    } else {
        text_before_from(a, b, i + 1)
    }
}

/// Whether text `a` comes before text `b` in the order of the
/// dictionary.
pub open spec fn text_before(a: Seq<char>, b: Seq<char>) -> bool {
    text_before_from(a, b, 0)
}

/// Whether application `x` is listed before application `y`: the one in
/// the foreground first, the others by the names of their processes.
pub open spec fn app_before(x: AppOutline, y: AppOutline) -> bool {
    (x.is_foreground && !y.is_foreground) || (x.is_foreground == y.is_foreground && text_before(
        x.process_name,
        y.process_name,
    ))
}

/// Whether one of the first `n` outlines is of process `name`.
pub open spec fn has_process(apps: Seq<AppOutline>, name: Seq<char>, n: int) -> bool
    decreases n,
{
    if n <= 0 || n > apps.len() {
        false
    } else {
        apps[n - 1].process_name == name || has_process(apps, name, n - 1)
    }
}

/// The applications of the first `n` windows: one for each process, with
/// the title of the first of its windows; the one whose process is in
/// the foreground is marked.
pub open spec fn apps_of(windows: Seq<ProcessWindow>, foreground: Option<Seq<char>>, n: int) -> Seq<
    AppOutline,
>
    decreases n,
{
    if n <= 0 || n > windows.len() {
        Seq::empty()
    } else {
        let prev = apps_of(windows, foreground, n - 1);
        if has_process(prev, windows[n - 1].0@, prev.len() as int) {
            prev
        } else {
            prev.push(
                AppOutline {
                    process_name: windows[n - 1].0@,
                    window_title: windows[n - 1].1@,
                    is_foreground: foreground == Some(windows[n - 1].0@),
                },
            )
        }
    }
}

/// `x` put into a list of applications that is in order, behind every
/// application that it is not listed before.
pub open spec fn insert_app(sorted: Seq<AppOutline>, x: AppOutline) -> Seq<AppOutline>
    decreases sorted.len(),
{
    if sorted.len() == 0 {
        seq![x]
    } else if !app_before(x, sorted.last()) {
        sorted.push(x)
    } else {
        insert_app(sorted.drop_last(), x).push(sorted.last())
    }
}

/// The first `n` applications in order.
pub open spec fn apps_in_order(apps: Seq<AppOutline>, n: int) -> Seq<AppOutline>
    decreases n,
{
    if n <= 0 || n > apps.len() {
        Seq::empty()
    } else {
        insert_app(apps_in_order(apps, n - 1), apps[n - 1])
    }
}

proof fn lemma_insert_app_at(sorted: Seq<AppOutline>, x: AppOutline, p: int)
    requires
        0 <= p <= sorted.len(),
        forall|j: int| p <= j < sorted.len() ==> app_before(x, sorted[j]),
        p > 0 ==> !app_before(x, sorted[p - 1]),
    ensures
        insert_app(sorted, x) == sorted.insert(p, x),
    decreases sorted.len(),
{
    if sorted.len() == 0 {
        assert(seq![x] =~= sorted.insert(p, x));
    } else if p == sorted.len() {
        assert(sorted.push(x) =~= sorted.insert(p, x));
    } else {
        let front = sorted.drop_last();
        lemma_insert_app_at(front, x, p);
        assert(front.insert(p, x).push(sorted.last()) =~= sorted.insert(p, x));
    }
}

fn comes_before(a: &Vec<char>, b: &Vec<char>) -> (r: bool)
    ensures
        r == text_before(a@, b@),
{
    let mut i: usize = 0;
    while i < b.len()
        invariant
            i <= b.len(),
            text_before(a@, b@) == text_before_from(a@, b@, i as int),
        decreases b.len() - i,
    {
        if i >= a.len() {
            return true;
        }
        if a[i] != b[i] {
            return (a[i] as u32) < (b[i] as u32);
        }
        i += 1;
    }
    false
}

fn listed_before(x: &AppInfo, y: &AppInfo) -> (r: bool)
    ensures
        r == app_before(app_outline(*x), app_outline(*y)),
{
    if x.is_foreground != y.is_foreground {
        x.is_foreground
    } else {
        let a = chars_of(x.process_name.as_str());
        let b = chars_of(y.process_name.as_str());
        comes_before(&a, &b)
    }
}

fn knows_process(apps: &Vec<AppInfo>, name: &str) -> (r: bool)
    ensures
        r == has_process(app_outlines(apps@), name@, apps@.len() as int),
{
    let mut n: usize = 0;
    while n < apps.len()
        invariant
            n <= apps.len(),
            !has_process(app_outlines(apps@), name@, n as int),
        decreases apps.len() - n,
    {
        assert(app_outlines(apps@)[n as int].process_name == apps@[n as int].process_name@);
        if str_eq(apps[n].process_name.as_str(), name) {
            proof {
                lemma_has_process_later(app_outlines(apps@), name@, n as int, apps@.len() as int);
            }
            return true;
        }
        n += 1;
    }
    proof {
        assert(app_outlines(apps@).len() == apps@.len());
    }
    false
}

proof fn lemma_has_process_later(apps: Seq<AppOutline>, name: Seq<char>, k: int, n: int)
    requires
        0 <= k < n <= apps.len(),
        apps[k].process_name == name,
    ensures
        has_process(apps, name, n),
    decreases n,
{
    if n > k + 1 {
        lemma_has_process_later(apps, name, k, n - 1);
    }
}

/// Lists the running applications, given the visible windows that the
/// operating system reports and the process of the window in the
/// foreground.
///
/// Each process is listed once, with the title of the first of its
/// windows. The application in the foreground comes first, the others
/// follow by the names of their processes.
pub fn arrange_apps(windows: &Vec<ProcessWindow>, foreground: Option<&str>) -> (r: Vec<AppInfo>)
    ensures
        ({
            let found = apps_of(
                windows@,
                match foreground {
                    Some(f) => Some(f@),
                    None => None,
                },
                windows@.len() as int,
            );
            app_outlines(r@) == apps_in_order(found, found.len() as int)
        }),
{
    let ghost front: Option<Seq<char>> = match foreground {
        Some(f) => Some(f@),
        None => None,
    };
    let mut found: Vec<AppInfo> = Vec::new();
    let mut n: usize = 0;
    proof {
        assert(app_outlines(found@) =~= apps_of(windows@, front, 0));
    }
    while n < windows.len()
        invariant
            n <= windows.len(),
            front == match foreground {
                Some(f) => Some(f@),
                None => None,
            },
            app_outlines(found@) == apps_of(windows@, front, n as int),
        decreases windows.len() - n,
    {
        let ghost before = found@;
        proof {
            assert(app_outlines(before).len() == before.len());
        }
        if !knows_process(&found, windows[n].0.as_str()) {
            let is_foreground = match foreground {
                Some(f) => str_eq(windows[n].0.as_str(), f),
                None => false,
            };
            found.push(
                AppInfo {
                    process_name: windows[n].0.clone(),
                    window_title: windows[n].1.clone(),
                    is_foreground,
                },
            );
            proof {
                assert(app_outlines(found@) =~= app_outlines(before).push(
                    AppOutline {
                        process_name: windows@[n as int].0@,
                        window_title: windows@[n as int].1@,
                        is_foreground: front == Some(windows@[n as int].0@),
                    },
                ));
            }
        }
        n += 1;
    }
    let ghost outlines = app_outlines(found@);
    let mut sorted: Vec<AppInfo> = Vec::new();
    let mut k: usize = 0;
    proof {
        assert(app_outlines(sorted@) =~= apps_in_order(outlines, 0));
    }
    while k < found.len()
        invariant
            k <= found.len(),
            outlines == app_outlines(found@),
            app_outlines(sorted@) == apps_in_order(outlines, k as int),
        decreases found.len() - k,
    {
        let x = AppInfo {
            process_name: found[k].process_name.clone(),
            window_title: found[k].window_title.clone(),
            is_foreground: found[k].is_foreground,
        };
        let ghost before = sorted@;
        let mut p: usize = sorted.len();
        while p > 0 && listed_before(&x, &sorted[p - 1])
            invariant
                p <= sorted.len(),
                forall|j: int|
                    p <= j < sorted.len() ==> app_before(app_outline(x), app_outline(sorted@[j])),
            decreases p,
        {
            p -= 1;
        }
        proof {
            assert(app_outline(x) == outlines[k as int]);
            assert forall|j: int| p <= j < before.len() implies app_before(
                app_outline(x),
                app_outlines(before)[j],
            ) by {
                assert(app_outlines(before)[j] == app_outline(before[j]));
            }
            if p > 0 {
                assert(app_outlines(before)[p - 1] == app_outline(before[p - 1]));
            }
            lemma_insert_app_at(app_outlines(before), app_outline(x), p as int);
        }
        sorted.insert(p, x);
        proof {
            assert(app_outlines(sorted@) =~= app_outlines(before).insert(p as int, app_outline(x)));
        }
        k += 1;
    }
    proof {
        assert(outlines.len() == found@.len());
    }
    sorted
}

} // verus!
