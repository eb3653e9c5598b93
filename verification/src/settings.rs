//! The interactive settings editor: the list it shows and the key handling
//! of the list and of the edit popup.
use crate::controls::Shortcut;
use crate::text::{lemma_text_le_antisym, lemma_text_le_total, lemma_text_le_trans, pop_char, push_char, push_text, str_eq, text_le, text_le_exec, trim, trim_spec};
use crate::tui::Key;
use vstd::prelude::*;

verus! {

/// A stored setting: key and value.
pub type Setting = (String, String);

/// Which part of the editor is up.
pub enum SettingsState {
    List,
    /// Editing the setting with this key; the text typed so far.
    Edit(String, String),
}

/// The editor's state.
pub struct SettingsApp {
    pub settings: Vec<Setting>,
    pub state: SettingsState,
    pub show_help: bool,
}

/// What the caller has to carry out after a key.
pub enum SettingsAction {
    Continue,
    Quit,
    /// Store the retention through the validating setter, then call `saved`.
    SaveRetention(String),
    /// Store the setting as typed, then call `saved`.
    SaveSetting { key: String, value: String },
}

/// A setting as text: key and value.
pub type SettingText = (Seq<char>, Seq<char>);

/// The settings as texts.
pub open spec fn texts_of(s: Seq<Setting>) -> Seq<SettingText> {
    s.map_values(|p: Setting| (p.0@, p.1@))
}

/// Order of settings: by key, then by value.
pub open spec fn setting_le(a: SettingText, b: SettingText) -> bool {
    if a.0 == b.0 {
        text_le(a.1, b.1)
    } else {
        text_le(a.0, b.0)
    }
}

proof fn lemma_setting_le_total_preorder(a: SettingText, b: SettingText, c: SettingText)
    ensures
        setting_le(a, b) || setting_le(b, a),
        setting_le(a, b) && setting_le(b, c) ==> setting_le(a, c),
{
    lemma_text_le_total(a.0, b.0);
    lemma_text_le_total(a.1, b.1);
    if setting_le(a, b) && setting_le(b, c) {
        if a.0 == b.0 && b.0 == c.0 {
            lemma_text_le_trans(a.1, b.1, c.1);
        } else if a.0 == b.0 || b.0 == c.0 {
        } else {
            lemma_text_le_trans(a.0, b.0, c.0);
            if a.0 == c.0 {
                lemma_text_le_antisym(a.0, b.0);
            }
        }
    }
}

fn setting_le_exec(a: &Setting, b: &Setting) -> (r: bool)
    ensures
        r == setting_le((a.0@, a.1@), (b.0@, b.1@)),
{
    if str_eq(a.0.as_str(), b.0.as_str()) {
        text_le_exec(a.1.as_str(), b.1.as_str())
    } else {
        text_le_exec(a.0.as_str(), b.0.as_str())
    }
}

/// `x` placed into the ordered `s` after every setting that may come before it.
pub open spec fn insert_setting(x: SettingText, s: Seq<SettingText>) -> Seq<SettingText>
    decreases s.len(),
{
    if s.len() == 0 {
        seq![x]
    } else if setting_le(s.last(), x) {
        s.push(x)
    } else {
        insert_setting(x, s.drop_last()).push(s.last())
    }
}

/// The settings in order (stable).
pub open spec fn sorted_settings(s: Seq<SettingText>) -> Seq<SettingText>
    decreases s.len(),
{
    if s.len() == 0 {
        Seq::empty()
    } else {
        insert_setting(s.last(), sorted_settings(s.drop_last()))
    }
}

pub open spec fn settings_ordered(s: Seq<SettingText>) -> bool {
    forall|i: int, j: int| 0 <= i < j < s.len() ==> setting_le(#[trigger] s[i], #[trigger] s[j])
}

proof fn lemma_insert_setting(x: SettingText, s: Seq<SettingText>)
    requires
        settings_ordered(s),
    ensures
        settings_ordered(insert_setting(x, s)),
        insert_setting(x, s).to_multiset() == s.to_multiset().insert(x),
    decreases s.len(),
{
    broadcast use vstd::seq_lib::group_to_multiset_ensures;
    let r = insert_setting(x, s);
    if s.len() == 0 {
        assert(s.to_multiset() =~= vstd::multiset::Multiset::empty());
        assert(r =~= Seq::<SettingText>::empty().push(x));
    } else if setting_le(s.last(), x) {
        assert forall|i: int, j: int| 0 <= i < j < r.len() implies setting_le(#[trigger] r[i], #[trigger] r[j]) by {
            if j == s.len() && i < s.len() - 1 {
                lemma_setting_le_total_preorder(s[i], s.last(), x);
            }
        }
    } else {
        let t = s.drop_last();
        lemma_insert_setting(x, t);
        let it = insert_setting(x, t);
        lemma_setting_le_total_preorder(s.last(), x, x);
        assert forall|i: int, j: int| 0 <= i < j < r.len() implies setting_le(#[trigger] r[i], #[trigger] r[j]) by {
            if j == r.len() - 1 {
                assert(it.contains(r[i]));
                assert(t.to_multiset().insert(x).count(r[i]) > 0);
                if r[i] != x {
                    assert(t.contains(r[i]));
                    let k = choose|k: int| 0 <= k < t.len() && t[k] == r[i];
                    assert(s[k] == t[k]);
                    assert(setting_le(s[k], s[s.len() - 1]));
                }
            }
        }
        assert(s =~= t.push(s.last()));
        assert(r.to_multiset() =~= s.to_multiset().insert(x));
    }
}

/// Ordering the settings gives an ordered rearrangement of the same settings.
pub proof fn lemma_sorted_settings(s: Seq<SettingText>)
    ensures
        settings_ordered(sorted_settings(s)),
        sorted_settings(s).to_multiset() == s.to_multiset(),
    decreases s.len(),
{
    broadcast use vstd::seq_lib::group_to_multiset_ensures;
    if s.len() == 0 {
        assert(s.to_multiset() =~= vstd::multiset::Multiset::empty());
        assert(sorted_settings(s).to_multiset() =~= vstd::multiset::Multiset::empty());
    } else {
        let t = s.drop_last();
        lemma_sorted_settings(t);
        lemma_insert_setting(s.last(), sorted_settings(t));
        assert(s =~= t.push(s.last()));
    }
}

fn insert_into(v: &mut Vec<Setting>, x: Setting)
    ensures
        texts_of(final(v)@) == insert_setting((x.0@, x.1@), texts_of(old(v)@)),
{
    let ghost s = v@;
    let ghost ts = texts_of(s);
    let ghost xt = (x.0@, x.1@);
    let mut p: usize = v.len();
    assert(ts.subrange(0, ts.len() as int) =~= ts);
    assert(insert_setting(xt, ts) + Seq::<SettingText>::empty() =~= insert_setting(xt, ts));
    while p > 0 && !setting_le_exec(&v[p - 1], &x)
        invariant
            v@ == s,
            ts == texts_of(s),
            xt == (x.0@, x.1@),
            p <= s.len(),
            insert_setting(xt, ts) == insert_setting(xt, ts.subrange(0, p as int)) + ts.subrange(p as int, ts.len() as int),
        decreases p,
    {
        let ghost pre = ts.subrange(0, p as int);
        assert(pre.drop_last() =~= ts.subrange(0, p - 1));
        assert(pre.last() == ts[p - 1]);
        assert(ts[p - 1] == (v@[p - 1].0@, v@[p - 1].1@));
        assert(insert_setting(xt, ts.subrange(0, p - 1)).push(ts[p - 1]) + ts.subrange(p as int, ts.len() as int)
            =~= insert_setting(xt, ts.subrange(0, p - 1)) + ts.subrange(p - 1, ts.len() as int));
        p = p - 1;
    }
    proof {
        let pre = ts.subrange(0, p as int);
        if p == 0 {
            assert(pre =~= Seq::<SettingText>::empty());
        } else {
            assert(pre.last() == ts[p - 1]);
            assert(ts[p - 1] == (v@[p - 1].0@, v@[p - 1].1@));
        }
        assert(insert_setting(xt, pre) =~= pre.push(xt));
        assert(pre.push(xt) + ts.subrange(p as int, ts.len() as int) =~= texts_of(s.insert(p as int, x)));
    }
    v.insert(p, x);
}

/// Sorts settings by key, then value (as `Vec::sort` on pairs of texts does).
pub fn sort_settings(settings: Vec<Setting>) -> (r: Vec<Setting>)
    ensures
        texts_of(r@) == sorted_settings(texts_of(settings@)),
{
    let ghost s = settings@;
    let ghost ts = texts_of(s);
    let mut src = settings;
    let mut out: Vec<Setting> = Vec::new();
    let mut i: usize = 0;
    let n = src.len();
    assert(texts_of(out@) =~= sorted_settings(ts.take(0)));
    while src.len() > 0
        invariant
            n == s.len(),
            ts == texts_of(s),
            i + src@.len() == n,
            src@ == s.skip(i as int),
            texts_of(out@) == sorted_settings(ts.take(i as int)),
        decreases src@.len(),
    {
        let x = src.remove(0);
        assert(x == s[i as int]);
        insert_into(&mut out, x);
        assert(ts.take(i + 1).drop_last() =~= ts.take(i as int));
        assert(ts.take(i + 1).last() == ts[i as int]);
        assert(src@ =~= s.skip(i + 1));
        i = i + 1;
    }
    assert(ts.take(n as int) =~= ts);
    out
}

/// Whether some setting has this key.
pub open spec fn has_key(s: Seq<SettingText>, key: Seq<char>) -> bool {
    exists|i: int| 0 <= i < s.len() && s[i].0 == key
}

fn find_key(s: &Vec<Setting>, key: &str) -> (r: bool)
    ensures
        r == has_key(texts_of(s@), key@),
{
    let mut i: usize = 0;
    while i < s.len()
        invariant
            i <= s@.len(),
            forall|j: int| 0 <= j < i ==> s@[j].0@ != key@,
        decreases s@.len() - i,
    {
        if str_eq(s[i].0.as_str(), key) {
            assert(texts_of(s@)[i as int].0 == key@);
            return true;
        }
        i = i + 1;
    }
    assert forall|j: int| 0 <= j < texts_of(s@).len() implies texts_of(s@)[j].0 != key@ by {
        assert(texts_of(s@)[j].0 == s@[j].0@);
    }
    false
}

/// The list the editor shows for the stored settings: they as they are,
/// or, while `log_retention` has never been stored, with a `log_retention`
/// row of `30d` (the default) added and the list ordered again.
pub open spec fn shown_settings(stored: Seq<SettingText>) -> Seq<SettingText> {
    if has_key(stored, "log_retention"@) {
        stored
    } else {
        sorted_settings(stored.push(("log_retention"@, "30d"@)))
    }
}

impl SettingsApp {
    /// The editor over the stored settings, on the list.
    pub fn new(stored: Vec<Setting>) -> (r: SettingsApp)
        ensures
            texts_of(r.settings@) == shown_settings(texts_of(stored@)),
            r.state is List,
            !r.show_help,
    {
        let mut app = SettingsApp { settings: Vec::new(), state: SettingsState::List, show_help: false };
        app.reload(stored);
        app
    }

    /// Shows the stored settings afresh (see `shown_settings`).
    pub fn reload(&mut self, stored: Vec<Setting>)
        ensures
            texts_of(final(self).settings@) == shown_settings(texts_of(stored@)),
            final(self).state == old(self).state,
            final(self).show_help == old(self).show_help,
    {
        let mut settings = stored;
        if !find_key(&settings, "log_retention") {
            let ghost before = settings@;
            settings.push((String::from_str("log_retention"), String::from_str("30d")));
            assert(texts_of(settings@) =~= texts_of(before).push(("log_retention"@, "30d"@)));
            settings = sort_settings(settings);
        }
        self.settings = settings;
    }

    /// Applies a key press; see `settings_key_step`.
    pub fn handle_key(&mut self, key: Key) -> (r: SettingsAction)
        ensures
            settings_key_step(*old(self), *final(self), key, r),
    {
        if self.show_help {
            if key == Key::Char('?') || key == Key::Esc || key == Key::Char('q') {
                self.show_help = false;
            }
            return SettingsAction::Continue;
        }
        let mut state = SettingsState::List;
        std::mem::swap(&mut state, &mut self.state);
        match state {
            SettingsState::List => {
                if key == Key::Char('q') || key == Key::Esc {
                    return SettingsAction::Quit;
                } else if key == Key::Enter {
                    if self.settings.len() > 0 {
                        let k = self.settings[0].0.clone();
                        let v = self.settings[0].1.clone();
                        self.state = SettingsState::Edit(k, v);
                    }
                } else if key == Key::Char('?') {
                    self.show_help = true;
                }
                SettingsAction::Continue
            },
            SettingsState::Edit(k, buf) => {
                let mut buf = buf;
                if key == Key::Enter {
                    let action = if str_eq(k.as_str(), "log_retention") {
                        SettingsAction::SaveRetention(String::from_str(trim(buf.as_str())))
                    } else {
                        SettingsAction::SaveSetting { key: k.clone(), value: buf.clone() }
                    };
                    self.state = SettingsState::Edit(k, buf);
                    action
                } else if key == Key::Esc {
                    SettingsAction::Continue
                } else if key == Key::Backspace {
                    let _ = pop_char(&mut buf);
                    self.state = SettingsState::Edit(k, buf);
                    SettingsAction::Continue
                } else {
                    match key {
                        Key::Char(c) => {
                            push_char(&mut buf, c);
                        },
                        _ => {},
                    }
                    self.state = SettingsState::Edit(k, buf);
                    SettingsAction::Continue
                }
            },
        }
    }

    /// After a save: when it was stored, shows the stored settings afresh and
    /// goes back to the list; when it was refused, stays in the editor.
    pub fn saved(&mut self, stored_ok: bool, stored: Vec<Setting>)
        ensures
            stored_ok ==> texts_of(final(self).settings@) == shown_settings(texts_of(stored@))
                && final(self).state is List,
            !stored_ok ==> final(self).settings@ == old(self).settings@ && final(self).state == old(self).state,
            final(self).show_help == old(self).show_help,
    {
        if stored_ok {
            self.reload(stored);
            self.state = SettingsState::List;
        }
    }
}

/// A key in the settings editor.
///
/// With the help overlay up, `?`, `Esc` and `q` close it; other keys are
/// ignored. On the list, `q`/`Esc` quit, `Enter` edits the first setting
/// (starting from its value) and `?` opens the help. In the editor, `Enter`
/// asks to save (the retention, trimmed, through its validating setter;
/// other settings as typed), `Esc` drops the edit, `Backspace` deletes the
/// last character and a character key types it.
pub open spec fn settings_key_step(pre: SettingsApp, post: SettingsApp, key: Key, r: SettingsAction) -> bool {
    &&& post.settings@ == pre.settings@
    &&& if pre.show_help {
        post.state == pre.state && post.show_help == !(key == Key::Char('?') || key == Key::Esc || key == Key::Char('q'))
            && r is Continue
    } else {
        match pre.state {
            SettingsState::List => {
                &&& post.show_help == (key == Key::Char('?'))
                &&& if key == Key::Char('q') || key == Key::Esc {
                    r is Quit && post.state is List
                } else if key == Key::Enter && pre.settings@.len() > 0 {
                    r is Continue && (post.state matches SettingsState::Edit(k, v) && k@ == pre.settings@[0].0@
                        && v@ == pre.settings@[0].1@)
                } else {
                    r is Continue && post.state is List
                }
            },
            SettingsState::Edit(k, buf) => {
                &&& !post.show_help
                &&& if key == Key::Enter {
                    &&& post.state matches SettingsState::Edit(k2, b2) && k2@ == k@ && b2@ == buf@
                    &&& if k@ == "log_retention"@ {
                        r matches SettingsAction::SaveRetention(v) && v@ == trim_spec(buf@)
                    } else {
                        r matches SettingsAction::SaveSetting { key: k3, value: v } && k3@ == k@ && v@ == buf@
                    }
                } else if key == Key::Esc {
                    post.state is List && r is Continue
                } else {
                    &&& r is Continue
                    &&& post.state matches SettingsState::Edit(k2, b2) && k2@ == k@ && b2@ == (if key == Key::Backspace {
                        if buf@.len() == 0 { buf@ } else { buf@.drop_last() }
                    } else if key is Char {
                        buf@.push(key->Char_0)
                    } else {
                        buf@
                    })
                }
            },
        }
    }
}

/// The hints shown in the bar of the settings editor.
pub fn basic_shortcuts(state: &SettingsState) -> (r: Vec<Shortcut>)
    ensures
        state is List ==> r@ == seq![("Enter", "Edit"), ("?", "All Keys"), ("q/Esc", "Quit")],
        state is Edit ==> r@ == seq![("Enter", "Save"), ("Esc", "Cancel")],
{
    match state {
        SettingsState::List => vec![("Enter", "Edit"), ("?", "All Keys"), ("q/Esc", "Quit")],
        SettingsState::Edit(_, _) => vec![("Enter", "Save"), ("Esc", "Cancel")],
    }
}

/// Every key of the settings editor, for the help overlay.
pub fn all_shortcuts(state: &SettingsState) -> (r: Vec<Shortcut>)
    ensures
        state is List ==> r@ == seq![("Enter", "Edit Setting"), ("?", "Help"), ("q/Esc", "Quit")],
        state is Edit ==> r@ == seq![("Enter", "Save"), ("Esc", "Cancel"), ("Backspace", "Delete")],
{
    match state {
        SettingsState::List => vec![("Enter", "Edit Setting"), ("?", "Help"), ("q/Esc", "Quit")],
        SettingsState::Edit(_, _) => vec![("Enter", "Save"), ("Esc", "Cancel"), ("Backspace", "Delete")],
    }
}

/// The text of the popup that edits a setting: the key, the value typed so
/// far and a block cursor.
pub open spec fn edit_popup_text(key: Seq<char>, value: Seq<char>) -> Seq<char> {
    " Edit "@ + key + ": "@ + value + "█ "@
}

pub fn edit_setting_text(key: &str, value: &str) -> (r: String)
    ensures
        r@ == edit_popup_text(key@, value@),
{
    let mut s = String::new();
    push_text(&mut s, " Edit ");
    push_text(&mut s, key);
    push_text(&mut s, ": ");
    push_text(&mut s, value);
    push_text(&mut s, "█ ");
    assert(s@ =~= edit_popup_text(key@, value@));
    s
}

} // verus!
