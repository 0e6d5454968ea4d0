//! Watching theme files while their author edits them: what to read, what to send, and whether it
//! is applied or only installed.
use vstd::prelude::*;
use vstd::string::*;

use crate::paths::{join, joined, Place};
use crate::table::TextTable;
use crate::text::{after_prefix, opt_view, same, same_opt, views};

verus! {

/// How long to wait between two rounds, in milliseconds.
pub const THEME_POLL_MS: u64 = 300;

// ── What to watch ───────────────────────────────────────────────────────────
/// What the command line says of theme watching.
pub enum ThemeWatchArg {
    /// Nothing is watched.
    Absent,
    /// The path is missing.
    MissingPath,
    Path(String),
}

/// Where `text` first stands in the list, or its length.
pub open spec fn first_at(list: Seq<Seq<char>>, text: Seq<char>) -> nat
    decreases list.len(),
{
    if list.len() == 0 || list[0] == text {
        0
    } else {
        1 + first_at(list.drop_first(), text)
    }
}

/// Reads the command line: what follows the first `--theme-watch` is the path.
pub fn theme_watch_arg(args: &Vec<String>) -> (r: ThemeWatchArg)
    ensures
        ({
            let at = first_at(views(args@), "--theme-watch"@) as int;
            match r {
                ThemeWatchArg::Absent => at == args@.len(),
                ThemeWatchArg::MissingPath => at == args@.len() - 1,
                ThemeWatchArg::Path(p) => at < args@.len() - 1 && p@ == args@[at + 1]@,
            }
        }),
{
    let ghost list = views(args@);
    let ghost flag = "--theme-watch"@;
    let mut i: usize = 0;
    assert(list.skip(0) =~= list);
    while i < args.len()
        invariant
            i <= args.len(),
            list == views(args@),
            flag == "--theme-watch"@,
            first_at(list, flag) == i + first_at(list.skip(i as int), flag),
        decreases args.len() - i,
    {
        let ghost rest = list.skip(i as int);
        assert(rest[0] == args@[i as int]@);
        assert(rest.drop_first() =~= list.skip(i + 1));
        if same(args[i].as_str(), "--theme-watch") {
            if i + 1 < args.len() {
                return ThemeWatchArg::Path(args[i + 1].clone());
            }
            return ThemeWatchArg::MissingPath;
        }
        i = i + 1;
    }
    ThemeWatchArg::Absent
}

/// What is watched: every theme of a directory, or a single file.
pub enum WatchTarget {
    Dir(String),
    File(String),
}

/// What a path stands for: a checkout with a `themes` directory, a directory of themes, a single
/// theme's directory, or a file.
pub fn watch_target(
    path: &Place,
    is_dir: bool,
    has_theme_file: bool,
    has_themes_dir: bool,
) -> (r: WatchTarget)
    ensures
        match r {
            WatchTarget::Dir(d) => is_dir && !has_theme_file && d@ == (if has_themes_dir {
                joined(path@, "themes"@).path
            } else {
                path.path@
            }),
            WatchTarget::File(f) => !(is_dir && !has_theme_file) && f@ == (if is_dir {
                joined(path@, "theme.css"@).path
            } else {
                path.path@
            }),
        },
{
    if is_dir && !has_theme_file {
        if has_themes_dir {
            WatchTarget::Dir(join(path, "themes").path)
        } else {
            WatchTarget::Dir(path.path.clone())
        }
    } else if is_dir {
        WatchTarget::File(join(path, "theme.css").path)
    } else {
        WatchTarget::File(path.path.clone())
    }
}

/// A resolved path as the front end can load it: Windows puts a prefix before it that no page
/// understands.
pub fn abs_watch_path(resolved: String) -> (r: String)
    ensures
        r@ == (if "\\\\?\\"@.is_prefix_of(resolved@) {
            resolved@.skip("\\\\?\\"@.len() as int)
        } else {
            resolved@
        }),
{
    match after_prefix(resolved.as_str(), "\\\\?\\") {
        Some(rest) => rest,
        None => resolved,
    }
}

// ── What is sent ────────────────────────────────────────────────────────────
/// What `serde_json` finds under a key of a text: the string there, where the text is an object
/// that holds one under this key.
pub uninterp spec fn json_text(text: Seq<char>, key: Seq<char>) -> Option<Seq<char>>;

/// `serde_json::from_str` reads the text as a value, `Value::get` takes the entry, `Value::as_str`
/// its string. Anything that is not there, or not of that kind, counts as absent; the outcome rests
/// on the text and the key alone.
#[verifier::external_body]
fn json_text_field(text: &str, key: &str) -> (r: Option<String>)
    ensures
        opt_view(r) == json_text(text@, key@),
{
    let value = serde_json::from_str::<serde_json::Value>(text).ok()?;
    value.get(key)?.as_str().map(String::from)
}

/// What a theme's manifest says of it.
pub struct ThemeMeta {
    pub name: Option<String>,
    pub author: Option<String>,
    pub version: Option<String>,
    pub description: Option<String>,
    pub mode: Option<String>,
}

/// What is sent to the front end.
pub struct ThemePayload {
    pub css: String,
    pub meta: ThemeMeta,
    /// The theme's own directory, against which its assets are resolved.
    pub asset_base: Option<String>,
}

/// What a theme's manifest says of it, in the abstract.
#[verifier::ext_equal]
pub ghost struct Meta {
    pub name: Option<Seq<char>>,
    pub author: Option<Seq<char>>,
    pub version: Option<Seq<char>>,
    pub description: Option<Seq<char>>,
    pub mode: Option<Seq<char>>,
}

/// What is sent to the front end, in the abstract.
#[verifier::ext_equal]
pub ghost struct Theme {
    pub css: Seq<char>,
    pub meta: Meta,
    pub asset_base: Option<Seq<char>>,
}

impl View for ThemeMeta {
    type V = Meta;

    open spec fn view(&self) -> Meta {
        Meta {
            name: opt_view(self.name),
            author: opt_view(self.author),
            version: opt_view(self.version),
            description: opt_view(self.description),
            mode: opt_view(self.mode),
        }
    }
}

impl View for ThemePayload {
    type V = Theme;

    open spec fn view(&self) -> Theme {
        Theme { css: self.css@, meta: self.meta@, asset_base: opt_view(self.asset_base) }
    }
}

/// What a manifest's text says under a key; nothing where there is no manifest.
pub open spec fn manifest_says(manifest: Option<Seq<char>>, key: Seq<char>) -> Option<Seq<char>> {
    match manifest {
        Some(text) => json_text(text, key),
        None => None,
    }
}

fn manifest_field(manifest: &Option<String>, key: &str) -> (r: Option<String>)
    ensures
        opt_view(r) == manifest_says(opt_view(*manifest), key@),
{
    match manifest {
        Some(text) => json_text_field(text.as_str(), key),
        None => None,
    }
}

/// What a theme's manifest says of it. A theme without a readable manifest has nothing said of it.
pub fn theme_meta(manifest: &Option<String>) -> (r: ThemeMeta)
    ensures
        ({
            let m = opt_view(*manifest);
            r@ == (Meta {
                name: manifest_says(m, "name"@),
                author: manifest_says(m, "author"@),
                version: manifest_says(m, "version"@),
                description: manifest_says(m, "description"@),
                mode: manifest_says(m, "mode"@),
            })
        }),
{
    ThemeMeta {
        name: manifest_field(manifest, "name"),
        author: manifest_field(manifest, "author"),
        version: manifest_field(manifest, "version"),
        description: manifest_field(manifest, "description"),
        mode: manifest_field(manifest, "mode"),
    }
}

fn same_payload(a: &ThemePayload, b: &ThemePayload) -> (r: bool)
    ensures
        r == (a@ == b@),
{
    let same_meta = same_opt(&a.meta.name, &b.meta.name) && same_opt(
        &a.meta.author,
        &b.meta.author,
    ) && same_opt(&a.meta.version, &b.meta.version) && same_opt(
        &a.meta.description,
        &b.meta.description,
    ) && same_opt(&a.meta.mode, &b.meta.mode);
    same_meta && same(a.css.as_str(), b.css.as_str()) && same_opt(&a.asset_base, &b.asset_base)
}

// ── When it is sent ─────────────────────────────────────────────────────────
/// How a theme is sent.
#[derive(PartialEq, Eq, Structural, Clone, Copy, Debug)]
pub enum ThemeEvent {
    /// Install the theme and switch to it.
    Css,
    /// Install the theme, whatever is active.
    CssSeed,
}

/// The name of an event.
pub fn theme_event_name(event: ThemeEvent) -> (r: &'static str)
    ensures
        r@ == (match event {
            ThemeEvent::Css => "theme-watch:css"@,
            ThemeEvent::CssSeed => "theme-watch:css-seed"@,
        }),
{
    match event {
        ThemeEvent::Css => "theme-watch:css",
        ThemeEvent::CssSeed => "theme-watch:css-seed",
    }
}

/// When a theme's files were last changed, where the file system tells. Times are nanoseconds.
#[derive(PartialEq, Eq, Structural, Clone, Copy, Debug)]
pub struct Stamps {
    pub css: Option<i128>,
    pub manifest: Option<i128>,
}

/// A theme that has been sent.
pub struct SeenTheme {
    pub stamps: Stamps,
    pub payload: ThemePayload,
}

/// A theme that has been sent, in the abstract.
#[verifier::ext_equal]
pub ghost struct Seen {
    pub stamps: Stamps,
    pub theme: Theme,
}

impl View for SeenTheme {
    type V = Seen;

    open spec fn view(&self) -> Seen {
        Seen { stamps: self.stamps, theme: self.payload@ }
    }
}

/// The themes that have been sent, by file.
pub struct ThemeWatch {
    /// A directory is watched, not a single file.
    pub directory: bool,
    pub seen: TextTable<SeenTheme>,
}

impl View for ThemeWatch {
    type V = Map<Seq<char>, Seen>;

    open spec fn view(&self) -> Map<Seq<char>, Seen> {
        self.seen@.map_values(|s: SeenTheme| s@)
    }
}

/// A file has to be read again: neither stamp proves that it is unchanged. A stamp that is missing
/// proves nothing, unless the manifest itself is missing now as it was then.
pub open spec fn outdated(
    seen: Map<Seq<char>, Seen>,
    file: Seq<char>,
    stamps: Stamps,
    manifest_exists: bool,
) -> bool {
    if !seen.contains_key(file) {
        true
    } else {
        let before = seen[file].stamps;
        let css_fresh = before.css is Some && before.css == stamps.css;
        let manifest_fresh = before.manifest == stamps.manifest && (stamps.manifest is Some
            || !manifest_exists);
        !(css_fresh && manifest_fresh)
    }
}

/// How a file that was read is sent: not at all where it says what it said before; only installed
/// where just its manifest has changed, and on first sight in a directory; else applied.
pub open spec fn sent_as(
    seen: Map<Seq<char>, Seen>,
    directory: bool,
    file: Seq<char>,
    theme: Theme,
) -> Option<ThemeEvent> {
    if seen.contains_key(file) {
        if seen[file].theme == theme {
            None
        } else if seen[file].theme.css == theme.css {
            Some(ThemeEvent::CssSeed)
        } else {
            Some(ThemeEvent::Css)
        }
    } else if directory {
        Some(ThemeEvent::CssSeed)
    } else {
        Some(ThemeEvent::Css)
    }
}

impl ThemeWatch {
    /// Each file is remembered at most once.
    pub open spec fn wf(self) -> bool {
        self.seen.wf()
    }

    /// Nothing has been sent yet.
    pub fn new(directory: bool) -> (r: ThemeWatch)
        ensures
            r.wf(),
            r.directory == directory,
            r@ == Map::<Seq<char>, Seen>::empty(),
    {
        let r = ThemeWatch { directory, seen: TextTable::new() };
        assert(r@ =~= Map::<Seq<char>, Seen>::empty());
        r
    }

    /// Whether a file has to be read.
    pub fn needs_read(&self, file: &str, stamps: Stamps, manifest_exists: bool) -> (r: bool)
        requires
            self.wf(),
        ensures
            r == outdated(self@, file@, stamps, manifest_exists),
    {
        match self.seen.get(file) {
            Some(entry) => {
                let before = entry.stamps;
                let css_fresh = match (before.css, stamps.css) {
                    (Some(a), Some(b)) => a == b,
                    _ => false,
                };
                let same_manifest = match (before.manifest, stamps.manifest) {
                    (Some(a), Some(b)) => a == b,
                    (None, None) => true,
                    _ => false,
                };
                let manifest_fresh = same_manifest && (stamps.manifest.is_some()
                    || !manifest_exists);
                !(css_fresh && manifest_fresh)
            },
            None => true,
        }
    }

    /// Says how a file that was read is sent. One that says what it said before is only noted with
    /// its new stamps.
    pub fn judge(&mut self, file: &str, stamps: Stamps, payload: ThemePayload) -> (r: Option<
        (ThemeEvent, ThemePayload),
    >)
        requires
            old(self).wf(),
        ensures
            final(self).wf(),
            final(self).directory == old(self).directory,
            (match r {
                Some(e) => Some(e.0),
                None => None,
            }) == sent_as(old(self)@, old(self).directory, file@, payload@),
            r matches Some(e) ==> e.1 == payload && final(self)@ == old(self)@,
            r is None ==> final(self)@ == old(self)@.insert(
                file@,
                (Seen { stamps, theme: payload@ }),
            ),
    {
        let event = match self.seen.get(file) {
            Some(entry) => {
                if same_payload(&entry.payload, &payload) {
                    None
                } else if same(entry.payload.css.as_str(), payload.css.as_str()) {
                    Some(ThemeEvent::CssSeed)
                } else {
                    Some(ThemeEvent::Css)
                }
            },
            None => {
                if self.directory {
                    Some(ThemeEvent::CssSeed)
                } else {
                    Some(ThemeEvent::Css)
                }
            },
        };
        match event {
            Some(e) => Some((e, payload)),
            None => {
                let ghost theme = payload@;
                self.seen.set(file.to_owned(), SeenTheme { stamps, payload });
                assert(self@ =~= old(self)@.insert(file@, Seen { stamps, theme }));
                None
            },
        }
    }

    /// Notes that a theme has been sent.
    pub fn sent(&mut self, file: String, stamps: Stamps, payload: ThemePayload)
        requires
            old(self).wf(),
        ensures
            final(self).wf(),
            final(self).directory == old(self).directory,
            final(self)@ == old(self)@.insert(file@, (Seen { stamps, theme: payload@ })),
    {
        let ghost theme = payload@;
        let ghost name = file@;
        self.seen.set(file, SeenTheme { stamps, payload });
        assert(self@ =~= old(self)@.insert(name, Seen { stamps, theme }));
    }

    /// The files whose themes have been sent, each once.
    pub fn files(&self) -> (r: Vec<String>)
        requires
            self.wf(),
        ensures
            forall|i: int| 0 <= i < r@.len() ==> self@.contains_key((#[trigger] r@[i])@),
            forall|k: Seq<char>| #[trigger]
                self@.contains_key(k) ==> exists|i: int| 0 <= i < r@.len() && (#[trigger] r@[i])@ == k,
            forall|i: int, j: int|
                0 <= i < j < r@.len() ==> (#[trigger] r@[i])@ != (#[trigger] r@[j])@,
    {
        let r = self.seen.list_keys();
        proof {
            assert forall|k: Seq<char>| #[trigger] self@.contains_key(k) implies exists|i: int|
                0 <= i < r@.len() && (#[trigger] r@[i])@ == k by {
                assert(self.seen@.contains_key(k));
            }
            assert forall|i: int| 0 <= i < r@.len() implies self@.contains_key(
                (#[trigger] r@[i])@,
            ) by {
                assert(self.seen@.contains_key(r@[i]@));
            }
        }
        r
    }

    /// What was last sent of a file.
    pub fn last_sent(&self, file: &str) -> (r: Option<&ThemePayload>)
        requires
            self.wf(),
        ensures
            r is Some <==> self@.contains_key(file@),
            r matches Some(p) ==> p@ == self@[file@].theme,
    {
        match self.seen.get(file) {
            Some(entry) => Some(&entry.payload),
            None => None,
        }
    }

    /// How everything is sent again to a page that has just loaded: a single theme is applied, a
    /// directory of them only installed, so that the active one is not taken away.
    pub fn ready_event(&self) -> (r: ThemeEvent)
        ensures
            r == (if self.directory {
                ThemeEvent::CssSeed
            } else {
                ThemeEvent::Css
            }),
    {
        if self.directory {
            ThemeEvent::CssSeed
        } else {
            ThemeEvent::Css
        }
    }
}

/// A theme that was sent is not sent again while its files stay as they are: with both stamps
/// unchanged it is not even read, and if it is read it is not sent.
pub proof fn law_unchanged_theme_is_not_sent_again(
    seen: Map<Seq<char>, Seen>,
    directory: bool,
    file: Seq<char>,
    stamps: Stamps,
    theme: Theme,
)
    ensures
        ({
            let now = seen.insert(file, Seen { stamps, theme });
            &&& sent_as(now, directory, file, theme) is None
            &&& stamps.css is Some && stamps.manifest is Some ==> !outdated(
                now,
                file,
                stamps,
                true,
            )
            &&& stamps.css is Some && stamps.manifest is None ==> !outdated(
                now,
                file,
                stamps,
                false,
            )
        }),
{
}

/// A change of the manifest alone is always noticed, and never takes the active theme away: it is
/// read, because its stamp has changed, and installed without being applied.
pub proof fn law_new_version_reaches_the_front_end(
    seen: Map<Seq<char>, Seen>,
    directory: bool,
    file: Seq<char>,
    before: Seen,
    stamps: Stamps,
    theme: Theme,
)
    requires
        before.stamps.manifest != stamps.manifest,
        before.theme.css == theme.css,
        before.theme != theme,
    ensures
        ({
            let now = seen.insert(file, before);
            &&& outdated(now, file, stamps, true)
            &&& sent_as(now, directory, file, theme) == Some(ThemeEvent::CssSeed)
        }),
{
}

/// A saved style sheet is applied, in a directory and alone.
pub proof fn law_saved_style_sheet_is_applied(
    seen: Map<Seq<char>, Seen>,
    directory: bool,
    file: Seq<char>,
    before: Seen,
    theme: Theme,
)
    requires
        before.theme.css != theme.css,
    ensures
        sent_as(seen.insert(file, before), directory, file, theme) == Some(ThemeEvent::Css),
{
}

/// A theme that was never sent is read in every round, whatever its stamps: one that could not be
/// sent is tried again.
pub proof fn law_unsent_theme_is_read(
    seen: Map<Seq<char>, Seen>,
    file: Seq<char>,
    stamps: Stamps,
    manifest_exists: bool,
)
    requires
        !seen.contains_key(file),
    ensures
        outdated(seen, file, stamps, manifest_exists),
{
}

// ── Reading and sending, in so many words ───────────────────────────────────
/// A text is looked for from the front: nothing before the place that is found is the text, and what
/// stands there is.
pub proof fn law_first_place_is_the_first(list: Seq<Seq<char>>, text: Seq<char>)
    ensures
        ({
            let at = first_at(list, text) as int;
            &&& at <= list.len()
            &&& at < list.len() ==> list[at] == text
            &&& forall|i: int| 0 <= i < at ==> #[trigger] list[i] != text
        }),
    decreases list.len(),
{
    if list.len() > 0 && list[0] != text {
        let rest = list.drop_first();
        law_first_place_is_the_first(rest, text);
        let at = first_at(list, text) as int;
        if at < list.len() {
            assert(list[at] == rest[at - 1]);
        }
        assert forall|i: int| 0 <= i < at implies #[trigger] list[i] != text by {
            if i > 0 {
                assert(list[i] == rest[i - 1]);
            }
        }
    }
}

/// A theme is read again unless it is certain that nothing has changed: both stamps are what they
/// were, that of the style sheet could be read, and so could that of the manifest unless there is
/// none.
pub proof fn law_theme_is_read_unless_surely_unchanged(
    seen: Map<Seq<char>, Seen>,
    file: Seq<char>,
    stamps: Stamps,
    manifest_exists: bool,
)
    ensures
        !seen.contains_key(file) ==> outdated(seen, file, stamps, manifest_exists),
        stamps.css is None ==> outdated(seen, file, stamps, manifest_exists),
        stamps.manifest is None && manifest_exists ==> outdated(
            seen,
            file,
            stamps,
            manifest_exists,
        ),
        seen.contains_key(file) && seen[file].stamps != stamps ==> outdated(
            seen,
            file,
            stamps,
            manifest_exists,
        ),
        seen.contains_key(file) && seen[file].stamps == stamps && stamps.css is Some && (
        stamps.manifest is Some || !manifest_exists) ==> !outdated(
            seen,
            file,
            stamps,
            manifest_exists,
        ),
{
}

/// What was sent before is not sent again. A style sheet is applied where it has changed, and where
/// it is the only one that is watched; a theme of a directory that is seen for the first time, or
/// one of which only the rest has changed, is installed without being applied.
pub proof fn law_theme_is_applied_where_its_style_changes(
    seen: Map<Seq<char>, Seen>,
    directory: bool,
    file: Seq<char>,
    theme: Theme,
)
    ensures
        ({
            let known = seen.contains_key(file);
            let r = sent_as(seen, directory, file, theme);
            &&& r is None <==> known && seen[file].theme == theme
            &&& r == Some(ThemeEvent::Css) <==> if known {
                seen[file].theme.css != theme.css
            } else {
                !directory
            }
            &&& r is Some && r != Some(ThemeEvent::Css) ==> r == Some(ThemeEvent::CssSeed)
        }),
{
}

/// Without a manifest nothing is said of a theme; with one, what stands under the key.
pub proof fn law_manifest_speaks_for_the_theme(text: Seq<char>, key: Seq<char>)
    ensures
        manifest_says(None, key) is None,
        manifest_says(Some(text), key) == json_text(text, key),
{
}

} // verus!
