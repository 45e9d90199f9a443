//! What installing the host writes: the native-messaging manifests and
//! where browsers look for them.

use vstd::prelude::*;
use vstd::string::*;
use crate::text::{chars_of, push_char};

verus! {

/// A browser the host registers with.
#[derive(Clone, Copy, Debug, PartialEq, Eq, Structural)]
pub enum Browser {
    Chrome,
    Edge,
    Firefox,
}

/// The name the host is registered under.
pub open spec fn host_name_text() -> Seq<char> {
    "com.aegis.http.gpg"@
}

/// The extension allowed to talk to the host when none is configured.
pub open spec fn default_extension_text() -> Seq<char> {
    "lappbcambkogfmigiphapgjcglafcfnd"@
}

/// The manifest for Chromium-based browsers.
pub open spec fn chrome_manifest_text(host: Seq<char>, path: Seq<char>, ext_id: Seq<char>) -> Seq<
    char,
> {
    "{\n  \"name\": \""@ + host + "\",\n  \"description\": \"Aegis Http Native Host Daemon\",\n  \"path\": \""@
        + path + "\",\n  \"type\": \"stdio\",\n  \"allowed_origins\": [\n    \"chrome-extension://"@
        + ext_id + "/\"\n  ]\n}"@
}

/// The manifest for Firefox.
pub open spec fn firefox_manifest_text(host: Seq<char>, path: Seq<char>) -> Seq<char> {
    "{\n  \"name\": \""@ + host + "\",\n  \"description\": \"Aegis Http Native Host Daemon\",\n  \"path\": \""@
        + path
        + "\",\n  \"type\": \"stdio\",\n  \"allowed_extensions\": [\n    \"aegis-http@aegishttp.com\"\n  ]\n}"@
}

/// `s` with every backslash doubled, as a JSON string needs it.
pub open spec fn doubled_backslashes(s: Seq<char>) -> Seq<char>
    decreases s.len(),
{
    if s.len() == 0 {
        Seq::empty()
    } else {
        doubled_backslashes(s.drop_last()) + if s.last() == '\\' {
            seq!['\\', '\\']
        } else {
            seq![s.last()]
        }
    }
}

/// The registry key (under the current user) where a browser looks for
/// the host on Windows.
pub open spec fn registry_key_text(browser: Browser, host: Seq<char>) -> Seq<char> {
    match browser {
        Browser::Chrome => "Software\\Google\\Chrome\\NativeMessagingHosts\\"@ + host,
        Browser::Edge => "Software\\Microsoft\\Edge\\NativeMessagingHosts\\"@ + host,
        Browser::Firefox => "Software\\Mozilla\\NativeMessagingHosts\\"@ + host,
    }
}

/// The file name of the manifest a browser is given on Windows, written
/// next to the executable.
pub open spec fn manifest_file_text(browser: Browser, host: Seq<char>) -> Seq<char> {
    match browser {
        Browser::Firefox => host + "-firefox.json"@,
        _ => host + ".json"@,
    }
}

/// Where a browser looks for the host's manifest on macOS.
pub open spec fn macos_manifest_text(browser: Browser, home: Seq<char>, host: Seq<char>) -> Seq<
    char,
> {
    let dir = match browser {
        Browser::Chrome => "/Library/Application Support/Google/Chrome/NativeMessagingHosts/"@,
        Browser::Edge => "/Library/Application Support/Microsoft Edge/NativeMessagingHosts/"@,
        Browser::Firefox => "/Library/Application Support/Mozilla/NativeMessagingHosts/"@,
    };
    home + dir + host + ".json"@
}

/// The name the host is registered under.
pub fn host_name() -> (s: String)
    ensures
        s@ == host_name_text(),
{
    "com.aegis.http.gpg".to_owned()
}

/// The extension allowed to talk to the host: the configured one, else
/// the default.
pub fn extension_id(configured: Option<String>) -> (s: String)
    ensures
        s@ == match configured {
            Some(c) => c@,
            None => default_extension_text(),
        },
{
    match configured {
        Some(c) => c,
        None => "lappbcambkogfmigiphapgjcglafcfnd".to_owned(),
    }
}

/// The manifest for Chromium-based browsers.
pub fn chrome_manifest(host: &str, path: &str, ext_id: &str) -> (m: String)
    ensures
        m@ == chrome_manifest_text(host@, path@, ext_id@),
{
    let mut m = "{\n  \"name\": \"".to_owned();
    m.append(host);
    m.append("\",\n  \"description\": \"Aegis Http Native Host Daemon\",\n  \"path\": \"");
    m.append(path);
    m.append("\",\n  \"type\": \"stdio\",\n  \"allowed_origins\": [\n    \"chrome-extension://");
    m.append(ext_id);
    m.append("/\"\n  ]\n}");
    m
}

/// The manifest for Firefox.
pub fn firefox_manifest(host: &str, path: &str) -> (m: String)
    ensures
        m@ == firefox_manifest_text(host@, path@),
{
    let mut m = "{\n  \"name\": \"".to_owned();
    m.append(host);
    m.append("\",\n  \"description\": \"Aegis Http Native Host Daemon\",\n  \"path\": \"");
    m.append(path);
    m.append(
        "\",\n  \"type\": \"stdio\",\n  \"allowed_extensions\": [\n    \"aegis-http@aegishttp.com\"\n  ]\n}",
    );
    m
}

/// `s` with every backslash doubled.
pub fn double_backslashes(s: &str) -> (r: String)
    ensures
        r@ == doubled_backslashes(s@),
{
    let chars = chars_of(s);
    let mut r = String::new();
    let mut i: usize = 0;
    assert(s@.take(0) =~= Seq::<char>::empty());
    while i < chars.len()
        invariant
            chars@ == s@,
            0 <= i <= chars@.len(),
            r@ == doubled_backslashes(s@.take(i as int)),
        decreases chars@.len() - i,
    {
        let c = chars[i];
        assert(s@.take(i + 1).drop_last() =~= s@.take(i as int));
        push_char(&mut r, c);
        if c == '\\' {
            push_char(&mut r, '\\');
        }
        i = i + 1;
        assert(r@ =~= doubled_backslashes(s@.take(i as int)));
    }
    assert(s@.take(i as int) =~= s@);
    r
}

/// The registry key where a browser looks for the host on Windows.
pub fn registry_key(browser: Browser, host: &str) -> (k: String)
    ensures
        k@ == registry_key_text(browser, host@),
{
    let mut k = match browser {
        Browser::Chrome => "Software\\Google\\Chrome\\NativeMessagingHosts\\".to_owned(),
        Browser::Edge => "Software\\Microsoft\\Edge\\NativeMessagingHosts\\".to_owned(),
        Browser::Firefox => "Software\\Mozilla\\NativeMessagingHosts\\".to_owned(),
    };
    k.append(host);
    k
}

/// The manifest file name a browser is given on Windows.
pub fn manifest_file_name(browser: Browser, host: &str) -> (f: String)
    ensures
        f@ == manifest_file_text(browser, host@),
{
    let mut f = host.to_owned();
    match browser {
        Browser::Firefox => f.append("-firefox.json"),
        _ => f.append(".json"),
    }
    f
}

/// Where a browser looks for the host's manifest on macOS.
pub fn macos_manifest_path(browser: Browser, home: &str, host: &str) -> (p: String)
    ensures
        p@ == macos_manifest_text(browser, home@, host@),
{
    let mut p = home.to_owned();
    match browser {
        Browser::Chrome => p.append("/Library/Application Support/Google/Chrome/NativeMessagingHosts/"),
        Browser::Edge => p.append("/Library/Application Support/Microsoft Edge/NativeMessagingHosts/"),
        Browser::Firefox => p.append("/Library/Application Support/Mozilla/NativeMessagingHosts/"),
    }
    p.append(host);
    p.append(".json");
    p
}

/// One thing an installation does.
pub enum InstallAction {
    /// Write `contents` to the file at `path`.
    WriteFile { path: String, contents: String },
    /// Set the default value of registry key `key` (under the current user)
    /// to `value`, registering the host with `browser`.
    SetRegistry { browser: Browser, key: String, value: String },
}

/// An installation action as plain values.
pub enum ActionView {
    WriteFile(Seq<char>, Seq<char>),
    SetRegistry(Browser, Seq<char>, Seq<char>),
}

impl View for InstallAction {
    type V = ActionView;

    open spec fn view(&self) -> ActionView {
        match self {
            InstallAction::WriteFile { path, contents } => ActionView::WriteFile(path@, contents@),
            InstallAction::SetRegistry { browser, key, value } => ActionView::SetRegistry(
                *browser,
                key@,
                value@,
            ),
        }
    }
}

/// The views of a list of actions.
pub open spec fn actions_view(v: Seq<InstallAction>) -> Seq<ActionView> {
    v.map_values(|a: InstallAction| a@)
}

/// What installing on Windows does: the Chromium manifest (with the
/// executable's path escaped) is written, Chrome and Edge are pointed at
/// it, then the Firefox manifest is written and Firefox pointed at it.
pub open spec fn windows_plan(
    host: Seq<char>,
    exe_path: Seq<char>,
    ext_id: Seq<char>,
    chrome_file: Seq<char>,
    firefox_file: Seq<char>,
) -> Seq<ActionView> {
    let path = doubled_backslashes(exe_path);
    seq![
        ActionView::WriteFile(chrome_file, chrome_manifest_text(host, path, ext_id)),
        ActionView::SetRegistry(Browser::Chrome, registry_key_text(Browser::Chrome, host), chrome_file),
        ActionView::SetRegistry(Browser::Edge, registry_key_text(Browser::Edge, host), chrome_file),
        ActionView::WriteFile(firefox_file, firefox_manifest_text(host, path)),
        ActionView::SetRegistry(
            Browser::Firefox,
            registry_key_text(Browser::Firefox, host),
            firefox_file,
        ),
    ]
}

/// What installing on macOS does: each browser's manifest is written where
/// it looks for it.
pub open spec fn macos_plan(host: Seq<char>, exe_path: Seq<char>, ext_id: Seq<char>, home: Seq<char>) -> Seq<
    ActionView,
> {
    seq![
        ActionView::WriteFile(
            macos_manifest_text(Browser::Chrome, home, host),
            chrome_manifest_text(host, exe_path, ext_id),
        ),
        ActionView::WriteFile(
            macos_manifest_text(Browser::Edge, home, host),
            chrome_manifest_text(host, exe_path, ext_id),
        ),
        ActionView::WriteFile(
            macos_manifest_text(Browser::Firefox, home, host),
            firefox_manifest_text(host, exe_path),
        ),
    ]
}

/// The files and registry values an installation leaves.
pub struct InstallState {
    pub files: Map<Seq<char>, Seq<char>>,
    pub registry: Map<Seq<char>, Seq<char>>,
}

/// The state after one action.
pub open spec fn apply_action(st: InstallState, a: ActionView) -> InstallState {
    match a {
        ActionView::WriteFile(path, contents) => InstallState {
            files: st.files.insert(path, contents),
            registry: st.registry,
        },
        ActionView::SetRegistry(_, key, value) => InstallState {
            files: st.files,
            registry: st.registry.insert(key, value),
        },
    }
}

/// The state after the actions, in order.
pub open spec fn apply_actions(st: InstallState, acts: Seq<ActionView>) -> InstallState
    decreases acts.len(),
{
    if acts.len() == 0 {
        st
    } else {
        apply_action(apply_actions(st, acts.drop_last()), acts.last())
    }
}

/// Nothing installed.
pub open spec fn empty_install() -> InstallState {
    InstallState { files: Map::empty(), registry: Map::empty() }
}

proof fn lemma_apply_is_union(st: InstallState, acts: Seq<ActionView>)
    ensures
        apply_actions(st, acts) == (InstallState {
            files: st.files.union_prefer_right(apply_actions(empty_install(), acts).files),
            registry: st.registry.union_prefer_right(apply_actions(empty_install(), acts).registry),
        }),
    decreases acts.len(),
{
    if acts.len() == 0 {
        assert(st.files.union_prefer_right(Map::empty()) =~= st.files);
        assert(st.registry.union_prefer_right(Map::empty()) =~= st.registry);
    } else {
        lemma_apply_is_union(st, acts.drop_last());
        let e = apply_actions(empty_install(), acts.drop_last());
        match acts.last() {
            ActionView::WriteFile(path, contents) => {
                assert(st.files.union_prefer_right(e.files).insert(path, contents)
                    =~= st.files.union_prefer_right(e.files.insert(path, contents)));
            },
            ActionView::SetRegistry(_, key, value) => {
                assert(st.registry.union_prefer_right(e.registry).insert(key, value)
                    =~= st.registry.union_prefer_right(e.registry.insert(key, value)));
            },
        }
    }
}

/// Installing twice leaves the same files and registry values as
/// installing once: every action writes a fixed value, so repeating the
/// actions changes nothing.
pub proof fn law_install_twice(st: InstallState, acts: Seq<ActionView>)
    ensures
        apply_actions(apply_actions(st, acts), acts) == apply_actions(st, acts),
{
    let once = apply_actions(st, acts);
    let e = apply_actions(empty_install(), acts);
    lemma_apply_is_union(st, acts);
    lemma_apply_is_union(once, acts);
    assert(st.files.union_prefer_right(e.files).union_prefer_right(e.files)
        =~= st.files.union_prefer_right(e.files));
    assert(st.registry.union_prefer_right(e.registry).union_prefer_right(e.registry)
        =~= st.registry.union_prefer_right(e.registry));
}

/// What installing on Windows does, for the executable at `exe_path` and
/// the manifest files `chrome_file` and `firefox_file` beside it.
pub fn windows_install_actions(
    host: &str,
    exe_path: &str,
    ext_id: &str,
    chrome_file: &str,
    firefox_file: &str,
) -> (acts: Vec<InstallAction>)
    ensures
        actions_view(acts@) == windows_plan(host@, exe_path@, ext_id@, chrome_file@, firefox_file@),
{
    let path = double_backslashes(exe_path);
    let acts = vec![
        InstallAction::WriteFile {
            path: chrome_file.to_owned(),
            contents: chrome_manifest(host, path.as_str(), ext_id),
        },
        InstallAction::SetRegistry {
            browser: Browser::Chrome,
            key: registry_key(Browser::Chrome, host),
            value: chrome_file.to_owned(),
        },
        InstallAction::SetRegistry {
            browser: Browser::Edge,
            key: registry_key(Browser::Edge, host),
            value: chrome_file.to_owned(),
        },
        InstallAction::WriteFile {
            path: firefox_file.to_owned(),
            contents: firefox_manifest(host, path.as_str()),
        },
        InstallAction::SetRegistry {
            browser: Browser::Firefox,
            key: registry_key(Browser::Firefox, host),
            value: firefox_file.to_owned(),
        },
    ];
    assert(actions_view(acts@) =~= windows_plan(
        host@,
        exe_path@,
        ext_id@,
        chrome_file@,
        firefox_file@,
    ));
    acts
}

/// What installing on macOS does, for the executable at `exe_path` and the
/// home directory `home`.
pub fn macos_install_actions(host: &str, exe_path: &str, ext_id: &str, home: &str) -> (acts: Vec<
    InstallAction,
>)
    ensures
        actions_view(acts@) == macos_plan(host@, exe_path@, ext_id@, home@),
{
    let acts = vec![
        InstallAction::WriteFile {
            path: macos_manifest_path(Browser::Chrome, home, host),
            contents: chrome_manifest(host, exe_path, ext_id),
        },
        InstallAction::WriteFile {
            path: macos_manifest_path(Browser::Edge, home, host),
            contents: chrome_manifest(host, exe_path, ext_id),
        },
        InstallAction::WriteFile {
            path: macos_manifest_path(Browser::Firefox, home, host),
            contents: firefox_manifest(host, exe_path),
        },
    ];
    assert(actions_view(acts@) =~= macos_plan(host@, exe_path@, ext_id@, home@));
    acts
}

proof fn lemma_apply_push(st: InstallState, acts: Seq<ActionView>, a: ActionView)
    ensures
        apply_actions(st, acts.push(a)) == apply_action(apply_actions(st, acts), a),
{
    assert(acts.push(a).drop_last() =~= acts);
}

/// After installing on Windows, each browser's registry entry names a file
/// that holds that browser's manifest: Chrome and Edge the manifest with
/// `allowed_origins`, Firefox the one with `allowed_extensions`, both with
/// the executable's path escaped. (The two manifest files must differ.)
pub proof fn law_windows_registry_names_manifest(
    st: InstallState,
    host: Seq<char>,
    exe_path: Seq<char>,
    ext_id: Seq<char>,
    chrome_file: Seq<char>,
    firefox_file: Seq<char>,
)
    requires
        chrome_file != firefox_file,
    ensures
        ({
            let done = apply_actions(st, windows_plan(host, exe_path, ext_id, chrome_file, firefox_file));
            let path = doubled_backslashes(exe_path);
            &&& done.registry.contains_key(registry_key_text(Browser::Chrome, host))
            &&& done.files.contains_key(done.registry[registry_key_text(Browser::Chrome, host)])
            &&& done.files[done.registry[registry_key_text(Browser::Chrome, host)]]
                == chrome_manifest_text(host, path, ext_id)
            &&& done.registry.contains_key(registry_key_text(Browser::Edge, host))
            &&& done.files.contains_key(done.registry[registry_key_text(Browser::Edge, host)])
            &&& done.files[done.registry[registry_key_text(Browser::Edge, host)]]
                == chrome_manifest_text(host, path, ext_id)
            &&& done.registry.contains_key(registry_key_text(Browser::Firefox, host))
            &&& done.files.contains_key(done.registry[registry_key_text(Browser::Firefox, host)])
            &&& done.files[done.registry[registry_key_text(Browser::Firefox, host)]]
                == firefox_manifest_text(host, path)
        }),
{
    let p = windows_plan(host, exe_path, ext_id, chrome_file, firefox_file);
    let kc = registry_key_text(Browser::Chrome, host);
    let ke = registry_key_text(Browser::Edge, host);
    let kf = registry_key_text(Browser::Firefox, host);
    reveal_strlit("Software\\Google\\Chrome\\NativeMessagingHosts\\");
    reveal_strlit("Software\\Microsoft\\Edge\\NativeMessagingHosts\\");
    reveal_strlit("Software\\Mozilla\\NativeMessagingHosts\\");
    assert(kc[9] != ke[9]);
    assert(kc[9] != kf[9]);
    assert(ke[10] != kf[10]);
    let e = Seq::<ActionView>::empty();
    assert(p =~= e.push(p[0]).push(p[1]).push(p[2]).push(p[3]).push(p[4]));
    lemma_apply_push(st, e, p[0]);
    lemma_apply_push(st, e.push(p[0]), p[1]);
    lemma_apply_push(st, e.push(p[0]).push(p[1]), p[2]);
    lemma_apply_push(st, e.push(p[0]).push(p[1]).push(p[2]), p[3]);
    lemma_apply_push(st, e.push(p[0]).push(p[1]).push(p[2]).push(p[3]), p[4]);
}

/// After installing on macOS, each browser's manifest location holds that
/// browser's manifest: Chrome and Edge the one with `allowed_origins`,
/// Firefox the one with `allowed_extensions`.
pub proof fn law_macos_paths_hold_manifests(
    st: InstallState,
    host: Seq<char>,
    exe_path: Seq<char>,
    ext_id: Seq<char>,
    home: Seq<char>,
)
    ensures
        ({
            let done = apply_actions(st, macos_plan(host, exe_path, ext_id, home));
            &&& done.files.contains_key(macos_manifest_text(Browser::Chrome, home, host))
            &&& done.files[macos_manifest_text(Browser::Chrome, home, host)] == chrome_manifest_text(
                host,
                exe_path,
                ext_id,
            )
            &&& done.files.contains_key(macos_manifest_text(Browser::Edge, home, host))
            &&& done.files[macos_manifest_text(Browser::Edge, home, host)] == chrome_manifest_text(
                host,
                exe_path,
                ext_id,
            )
            &&& done.files.contains_key(macos_manifest_text(Browser::Firefox, home, host))
            &&& done.files[macos_manifest_text(Browser::Firefox, home, host)]
                == firefox_manifest_text(host, exe_path)
        }),
{
    let p = macos_plan(host, exe_path, ext_id, home);
    let pc = macos_manifest_text(Browser::Chrome, home, host);
    let pe = macos_manifest_text(Browser::Edge, home, host);
    let pf = macos_manifest_text(Browser::Firefox, home, host);
    reveal_strlit("/Library/Application Support/Google/Chrome/NativeMessagingHosts/");
    reveal_strlit("/Library/Application Support/Microsoft Edge/NativeMessagingHosts/");
    reveal_strlit("/Library/Application Support/Mozilla/NativeMessagingHosts/");
    let n = home.len() as int;
    assert(pc[n + 29] != pe[n + 29]);
    assert(pc[n + 29] != pf[n + 29]);
    assert(pe[n + 30] != pf[n + 30]);
    let e = Seq::<ActionView>::empty();
    assert(p =~= e.push(p[0]).push(p[1]).push(p[2]));
    lemma_apply_push(st, e, p[0]);
    lemma_apply_push(st, e.push(p[0]), p[1]);
    lemma_apply_push(st, e.push(p[0]).push(p[1]), p[2]);
}

} // verus!
