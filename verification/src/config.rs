//! The configuration record: every option the external utility knows,
//! each independently optional.  An absent field means "use the
//! utility's built-in default"; the editor never invents a value for
//! a field the user did not touch.

use vstd::prelude::*;

verus! {

pub open spec fn view_opt_str(o: Option<String>) -> Option<Seq<char>> {
    match o {
        Some(s) => Some(s@),
        None => None,
    }
}

pub open spec fn view_opt_list(o: Option<Vec<String>>) -> Option<Seq<Seq<char>>> {
    match o {
        Some(v) => Some(v@.map_values(|s: String| s@)),
        None => None,
    }
}

pub open spec fn view_opt_map(o: Option<Vec<(String, String)>>) -> Option<
    Seq<(Seq<char>, Seq<char>)>,
> {
    match o {
        Some(v) => Some(v@.map_values(|p: (String, String)| (p.0@, p.1@))),
        None => None,
    }
}

/// The mathematical content of a configuration record.
#[verifier::ext_equal]
pub struct ConfigView {
    pub label: Option<Seq<char>>,
    pub backend: Option<Seq<char>>,
    pub enable: Option<bool>,
    pub clipboard_threshold: Option<u64>,
    pub auto_restart: Option<bool>,
    pub toggle_key: Option<Seq<char>>,
    pub preserve_clipboard: Option<bool>,
    pub paste_shortcut: Option<Seq<char>>,
    pub disable_x11_fast_inject: Option<bool>,
    pub inject_delay: Option<u64>,
    pub key_delay: Option<u64>,
    pub evdev_modifier_delay: Option<u64>,
    pub word_separators: Option<Seq<Seq<char>>>,
    pub backspace_limit: Option<u64>,
    pub apply_patch: Option<bool>,
    pub keyboard_layout: Option<Seq<(Seq<char>, Seq<char>)>>,
    pub search_trigger: Option<Seq<char>>,
    pub search_shortcut: Option<Seq<char>>,
    pub undo_backspace: Option<bool>,
    pub show_icon: Option<bool>,
    pub show_notifications: Option<bool>,
    pub secure_input_notification: Option<bool>,
    pub pre_paste_delay: Option<u64>,
    pub restore_clipboard_delay: Option<u64>,
    pub paste_shortcut_event_delay: Option<u64>,
    pub post_form_delay: Option<u64>,
    pub post_search_delay: Option<u64>,
    pub emulate_alt_codes: Option<bool>,
    pub win32_exclude_orphan_events: Option<bool>,
    pub win32_keyboard_layout_cache_interval: Option<i64>,
    pub x11_use_xclip_backend: Option<bool>,
    pub x11_use_xdotool_backend: Option<bool>,
    pub use_standard_includes: Option<bool>,
    pub includes: Option<Seq<Seq<char>>>,
    pub extra_includes: Option<Seq<Seq<char>>>,
    pub excludes: Option<Seq<Seq<char>>>,
    pub extra_excludes: Option<Seq<Seq<char>>>,
    pub filter_class: Option<Seq<char>>,
    pub filter_exec: Option<Seq<char>>,
    pub filter_os: Option<Seq<char>>,
    pub filter_title: Option<Seq<char>>,
}

/// One typed, optional field per recognised key of the configuration
/// file.
#[derive(Debug)]
pub struct ParsedConfig {
    pub label: Option<String>,
    pub backend: Option<String>,
    pub enable: Option<bool>,
    pub clipboard_threshold: Option<u64>,
    pub auto_restart: Option<bool>,
    pub toggle_key: Option<String>,
    pub preserve_clipboard: Option<bool>,
    pub paste_shortcut: Option<String>,
    pub disable_x11_fast_inject: Option<bool>,
    pub inject_delay: Option<u64>,
    pub key_delay: Option<u64>,
    pub evdev_modifier_delay: Option<u64>,
    pub word_separators: Option<Vec<String>>,
    pub backspace_limit: Option<u64>,
    pub apply_patch: Option<bool>,
    pub keyboard_layout: Option<Vec<(String, String)>>,
    pub search_trigger: Option<String>,
    pub search_shortcut: Option<String>,
    pub undo_backspace: Option<bool>,
    pub show_icon: Option<bool>,
    pub show_notifications: Option<bool>,
    pub secure_input_notification: Option<bool>,
    pub pre_paste_delay: Option<u64>,
    pub restore_clipboard_delay: Option<u64>,
    pub paste_shortcut_event_delay: Option<u64>,
    pub post_form_delay: Option<u64>,
    pub post_search_delay: Option<u64>,
    pub emulate_alt_codes: Option<bool>,
    pub win32_exclude_orphan_events: Option<bool>,
    pub win32_keyboard_layout_cache_interval: Option<i64>,
    pub x11_use_xclip_backend: Option<bool>,
    pub x11_use_xdotool_backend: Option<bool>,
    pub use_standard_includes: Option<bool>,
    pub includes: Option<Vec<String>>,
    pub extra_includes: Option<Vec<String>>,
    pub excludes: Option<Vec<String>>,
    pub extra_excludes: Option<Vec<String>>,
    pub filter_class: Option<String>,
    pub filter_exec: Option<String>,
    pub filter_os: Option<String>,
    pub filter_title: Option<String>,
}

impl View for ParsedConfig {
    type V = ConfigView;

    open spec fn view(&self) -> ConfigView {
        ConfigView {
            label: view_opt_str(self.label),
            backend: view_opt_str(self.backend),
            enable: self.enable,
            clipboard_threshold: self.clipboard_threshold,
            auto_restart: self.auto_restart,
            toggle_key: view_opt_str(self.toggle_key),
            preserve_clipboard: self.preserve_clipboard,
            paste_shortcut: view_opt_str(self.paste_shortcut),
            disable_x11_fast_inject: self.disable_x11_fast_inject,
            inject_delay: self.inject_delay,
            key_delay: self.key_delay,
            evdev_modifier_delay: self.evdev_modifier_delay,
            word_separators: view_opt_list(self.word_separators),
            backspace_limit: self.backspace_limit,
            apply_patch: self.apply_patch,
            keyboard_layout: view_opt_map(self.keyboard_layout),
            search_trigger: view_opt_str(self.search_trigger),
            search_shortcut: view_opt_str(self.search_shortcut),
            undo_backspace: self.undo_backspace,
            show_icon: self.show_icon,
            show_notifications: self.show_notifications,
            secure_input_notification: self.secure_input_notification,
            pre_paste_delay: self.pre_paste_delay,
            restore_clipboard_delay: self.restore_clipboard_delay,
            paste_shortcut_event_delay: self.paste_shortcut_event_delay,
            post_form_delay: self.post_form_delay,
            post_search_delay: self.post_search_delay,
            emulate_alt_codes: self.emulate_alt_codes,
            win32_exclude_orphan_events: self.win32_exclude_orphan_events,
            win32_keyboard_layout_cache_interval: self.win32_keyboard_layout_cache_interval,
            x11_use_xclip_backend: self.x11_use_xclip_backend,
            x11_use_xdotool_backend: self.x11_use_xdotool_backend,
            use_standard_includes: self.use_standard_includes,
            includes: view_opt_list(self.includes),
            extra_includes: view_opt_list(self.extra_includes),
            excludes: view_opt_list(self.excludes),
            extra_excludes: view_opt_list(self.extra_excludes),
            filter_class: view_opt_str(self.filter_class),
            filter_exec: view_opt_str(self.filter_exec),
            filter_os: view_opt_str(self.filter_os),
            filter_title: view_opt_str(self.filter_title),
        }
    }
}

/// The record with every field unset.
pub open spec fn all_unset() -> ConfigView {
    ConfigView {
        label: None,
        backend: None,
        enable: None,
        clipboard_threshold: None,
        auto_restart: None,
        toggle_key: None,
        preserve_clipboard: None,
        paste_shortcut: None,
        disable_x11_fast_inject: None,
        inject_delay: None,
        key_delay: None,
        evdev_modifier_delay: None,
        word_separators: None,
        backspace_limit: None,
        apply_patch: None,
        keyboard_layout: None,
        search_trigger: None,
        search_shortcut: None,
        undo_backspace: None,
        show_icon: None,
        show_notifications: None,
        secure_input_notification: None,
        pre_paste_delay: None,
        restore_clipboard_delay: None,
        paste_shortcut_event_delay: None,
        post_form_delay: None,
        post_search_delay: None,
        emulate_alt_codes: None,
        win32_exclude_orphan_events: None,
        win32_keyboard_layout_cache_interval: None,
        x11_use_xclip_backend: None,
        x11_use_xdotool_backend: None,
        use_standard_includes: None,
        includes: None,
        extra_includes: None,
        excludes: None,
        extra_excludes: None,
        filter_class: None,
        filter_exec: None,
        filter_os: None,
        filter_title: None,
    }
}

impl Default for ParsedConfig {
    /// The application's own default record: nothing set.
    fn default() -> (r: ParsedConfig)
        ensures
            r@ == all_unset(),
    {
        let r = ParsedConfig {
            label: None,
            backend: None,
            enable: None,
            clipboard_threshold: None,
            auto_restart: None,
            toggle_key: None,
            preserve_clipboard: None,
            paste_shortcut: None,
            disable_x11_fast_inject: None,
            inject_delay: None,
            key_delay: None,
            evdev_modifier_delay: None,
            word_separators: None,
            backspace_limit: None,
            apply_patch: None,
            keyboard_layout: None,
            search_trigger: None,
            search_shortcut: None,
            undo_backspace: None,
            show_icon: None,
            show_notifications: None,
            secure_input_notification: None,
            pre_paste_delay: None,
            restore_clipboard_delay: None,
            paste_shortcut_event_delay: None,
            post_form_delay: None,
            post_search_delay: None,
            emulate_alt_codes: None,
            win32_exclude_orphan_events: None,
            win32_keyboard_layout_cache_interval: None,
            x11_use_xclip_backend: None,
            x11_use_xdotool_backend: None,
            use_standard_includes: None,
            includes: None,
            extra_includes: None,
            excludes: None,
            extra_excludes: None,
            filter_class: None,
            filter_exec: None,
            filter_os: None,
            filter_title: None,
        };
        assert(r@ =~= all_unset());
        r
    }
}

fn clone_opt_string(o: &Option<String>) -> (r: Option<String>)
    ensures
        r == *o,
{
    match o {
        Some(s) => Some(s.clone()),
        None => None,
    }
}

fn clone_opt_list(o: &Option<Vec<String>>) -> (r: Option<Vec<String>>)
    ensures
        view_opt_list(r) == view_opt_list(*o),
{
    match o {
        Some(v) => {
            let mut out: Vec<String> = Vec::new();
            let n = v.len();
            let mut i: usize = 0;
            while i < n
                invariant
                    i <= n,
                    n == v@.len(),
                    out@ == v@.subrange(0, i as int),
                decreases n - i,
            {
                out.push(v[i].clone());
                assert(out@ =~= v@.subrange(0, i + 1 as int));
                i += 1;
            }
            assert(out@ =~= v@);
            Some(out)
        },
        None => None,
    }
}

fn clone_opt_map(o: &Option<Vec<(String, String)>>) -> (r: Option<Vec<(String, String)>>)
    ensures
        view_opt_map(r) == view_opt_map(*o),
{
    match o {
        Some(v) => {
            let mut out: Vec<(String, String)> = Vec::new();
            let n = v.len();
            let mut i: usize = 0;
            while i < n
                invariant
                    i <= n,
                    n == v@.len(),
                    out@ == v@.subrange(0, i as int),
                decreases n - i,
            {
                let p = &v[i];
                let q = (p.0.clone(), p.1.clone());
                assert(q == v@[i as int]);
                out.push(q);
                assert(out@ =~= v@.subrange(0, i + 1 as int));
                i += 1;
            }
            assert(out@ =~= v@);
            Some(out)
        },
        None => None,
    }
}

fn opt_str_eq(a: &Option<String>, b: &Option<String>) -> (r: bool)
    ensures
        r == (view_opt_str(*a) == view_opt_str(*b)),
{
    match a {
        Some(x) => match b {
            Some(y) => *x == *y,
            None => false,
        },
        None => match b {
            Some(y) => false,
            None => true,
        },
    }
}

fn opt_list_eq(a: &Option<Vec<String>>, b: &Option<Vec<String>>) -> (r: bool)
    ensures
        r == (view_opt_list(*a) == view_opt_list(*b)),
{
    match a {
        Some(x) => match b {
            Some(y) => {
            let ghost va = x@.map_values(|s: String| s@);
            let ghost vb = y@.map_values(|s: String| s@);
            assert(view_opt_list(*a) == Some(va) && view_opt_list(*b) == Some(vb));
            let vx = x.len();
            if vx != y.len() {
                assert(va.len() != vb.len());
                return false;
            }
            let mut i: usize = 0;
            while i < vx
                invariant
                    i <= vx,
                    vx == x@.len(),
                    vx == y@.len(),
                    va == x@.map_values(|s: String| s@),
                    vb == y@.map_values(|s: String| s@),
                    view_opt_list(*a) == Some(va),
                    view_opt_list(*b) == Some(vb),
                    forall|j: int| 0 <= j < i ==> va[j] == #[trigger] vb[j],
                decreases vx - i,
            {
                if !(x[i] == y[i]) {
                    assert(va[i as int] != vb[i as int]);
                    assert(va != vb);
                    assert(view_opt_list(*a) != view_opt_list(*b));
                    return false;
                }
                assert(va[i as int] == vb[i as int]);
                i += 1;
            }
            assert(va =~= vb);
            true
            },
            None => false,
        },
        None => match b {
            Some(y) => false,
            None => true,
        },
    }
}

fn opt_map_eq(a: &Option<Vec<(String, String)>>, b: &Option<Vec<(String, String)>>) -> (r: bool)
    ensures
        r == (view_opt_map(*a) == view_opt_map(*b)),
{
    match a {
        Some(x) => match b {
            Some(y) => {
            let ghost va = x@.map_values(|p: (String, String)| (p.0@, p.1@));
            let ghost vb = y@.map_values(|p: (String, String)| (p.0@, p.1@));
            assert(view_opt_map(*a) == Some(va) && view_opt_map(*b) == Some(vb));
            let vx = x.len();
            if vx != y.len() {
                assert(va.len() != vb.len());
                return false;
            }
            let mut i: usize = 0;
            while i < vx
                invariant
                    i <= vx,
                    vx == x@.len(),
                    vx == y@.len(),
                    va == x@.map_values(|p: (String, String)| (p.0@, p.1@)),
                    vb == y@.map_values(|p: (String, String)| (p.0@, p.1@)),
                    view_opt_map(*a) == Some(va),
                    view_opt_map(*b) == Some(vb),
                    forall|j: int| 0 <= j < i ==> va[j] == #[trigger] vb[j],
                decreases vx - i,
            {
                if !(x[i].0 == y[i].0) || !(x[i].1 == y[i].1) {
                    assert(va[i as int] == (x@[i as int].0@, x@[i as int].1@));
                    assert(vb[i as int] == (y@[i as int].0@, y@[i as int].1@));
                    assert(va[i as int] != vb[i as int]);
                    assert(va != vb);
                    assert(view_opt_map(*a) != view_opt_map(*b));
                    return false;
                }
                assert(va[i as int] == vb[i as int]);
                i += 1;
            }
            assert(va =~= vb);
            true
            },
            None => false,
        },
        None => match b {
            Some(y) => false,
            None => true,
        },
    }
}


impl Clone for ParsedConfig {
    fn clone(&self) -> (r: Self)
        ensures
            r@ == self@,
    {
        let r = ParsedConfig {
            label: clone_opt_string(&self.label),
            backend: clone_opt_string(&self.backend),
            enable: self.enable,
            clipboard_threshold: self.clipboard_threshold,
            auto_restart: self.auto_restart,
            toggle_key: clone_opt_string(&self.toggle_key),
            preserve_clipboard: self.preserve_clipboard,
            paste_shortcut: clone_opt_string(&self.paste_shortcut),
            disable_x11_fast_inject: self.disable_x11_fast_inject,
            inject_delay: self.inject_delay,
            key_delay: self.key_delay,
            evdev_modifier_delay: self.evdev_modifier_delay,
            word_separators: clone_opt_list(&self.word_separators),
            backspace_limit: self.backspace_limit,
            apply_patch: self.apply_patch,
            keyboard_layout: clone_opt_map(&self.keyboard_layout),
            search_trigger: clone_opt_string(&self.search_trigger),
            search_shortcut: clone_opt_string(&self.search_shortcut),
            undo_backspace: self.undo_backspace,
            show_icon: self.show_icon,
            show_notifications: self.show_notifications,
            secure_input_notification: self.secure_input_notification,
            pre_paste_delay: self.pre_paste_delay,
            restore_clipboard_delay: self.restore_clipboard_delay,
            paste_shortcut_event_delay: self.paste_shortcut_event_delay,
            post_form_delay: self.post_form_delay,
            post_search_delay: self.post_search_delay,
            emulate_alt_codes: self.emulate_alt_codes,
            win32_exclude_orphan_events: self.win32_exclude_orphan_events,
            win32_keyboard_layout_cache_interval: self.win32_keyboard_layout_cache_interval,
            x11_use_xclip_backend: self.x11_use_xclip_backend,
            x11_use_xdotool_backend: self.x11_use_xdotool_backend,
            use_standard_includes: self.use_standard_includes,
            includes: clone_opt_list(&self.includes),
            extra_includes: clone_opt_list(&self.extra_includes),
            excludes: clone_opt_list(&self.excludes),
            extra_excludes: clone_opt_list(&self.extra_excludes),
            filter_class: clone_opt_string(&self.filter_class),
            filter_exec: clone_opt_string(&self.filter_exec),
            filter_os: clone_opt_string(&self.filter_os),
            filter_title: clone_opt_string(&self.filter_title),
        };
        assert(r@ =~= self@);
        r
    }
}

impl ParsedConfig {
    /// Structural equality of two records, field by field.
    pub fn eq_config(&self, other: &ParsedConfig) -> (r: bool)
        ensures
            r == (self@ == other@),
    {
        let r = opt_str_eq(&self.label, &other.label)
            && opt_str_eq(&self.backend, &other.backend)
            && self.enable == other.enable
            && self.clipboard_threshold == other.clipboard_threshold
            && self.auto_restart == other.auto_restart
            && opt_str_eq(&self.toggle_key, &other.toggle_key)
            && self.preserve_clipboard == other.preserve_clipboard
            && opt_str_eq(&self.paste_shortcut, &other.paste_shortcut)
            && self.disable_x11_fast_inject == other.disable_x11_fast_inject
            && self.inject_delay == other.inject_delay
            && self.key_delay == other.key_delay
            && self.evdev_modifier_delay == other.evdev_modifier_delay
            && opt_list_eq(&self.word_separators, &other.word_separators)
            && self.backspace_limit == other.backspace_limit
            && self.apply_patch == other.apply_patch
            && opt_map_eq(&self.keyboard_layout, &other.keyboard_layout)
            && opt_str_eq(&self.search_trigger, &other.search_trigger)
            && opt_str_eq(&self.search_shortcut, &other.search_shortcut)
            && self.undo_backspace == other.undo_backspace
            && self.show_icon == other.show_icon
            && self.show_notifications == other.show_notifications
            && self.secure_input_notification == other.secure_input_notification
            && self.pre_paste_delay == other.pre_paste_delay
            && self.restore_clipboard_delay == other.restore_clipboard_delay
            && self.paste_shortcut_event_delay == other.paste_shortcut_event_delay
            && self.post_form_delay == other.post_form_delay
            && self.post_search_delay == other.post_search_delay
            && self.emulate_alt_codes == other.emulate_alt_codes
            && self.win32_exclude_orphan_events == other.win32_exclude_orphan_events
            && self.win32_keyboard_layout_cache_interval == other.win32_keyboard_layout_cache_interval
            && self.x11_use_xclip_backend == other.x11_use_xclip_backend
            && self.x11_use_xdotool_backend == other.x11_use_xdotool_backend
            && self.use_standard_includes == other.use_standard_includes
            && opt_list_eq(&self.includes, &other.includes)
            && opt_list_eq(&self.extra_includes, &other.extra_includes)
            && opt_list_eq(&self.excludes, &other.excludes)
            && opt_list_eq(&self.extra_excludes, &other.extra_excludes)
            && opt_str_eq(&self.filter_class, &other.filter_class)
            && opt_str_eq(&self.filter_exec, &other.filter_exec)
            && opt_str_eq(&self.filter_os, &other.filter_os)
            && opt_str_eq(&self.filter_title, &other.filter_title);
        if r {
            assert(self@ =~= other@);
        } else {
            assert(self@ != other@);
        }
        r
    }
}


/// The raw record a configuration file parses into: every recognised
/// key, including the legacy `backspace_delay` spelling of
/// `key_delay`.
#[derive(Debug)]
pub struct YAMLConfig {
    pub label: Option<String>,
    pub backend: Option<String>,
    pub enable: Option<bool>,
    pub clipboard_threshold: Option<u64>,
    pub auto_restart: Option<bool>,
    pub toggle_key: Option<String>,
    pub preserve_clipboard: Option<bool>,
    pub paste_shortcut: Option<String>,
    pub disable_x11_fast_inject: Option<bool>,
    pub inject_delay: Option<u64>,
    pub key_delay: Option<u64>,
    pub backspace_delay: Option<u64>,
    pub evdev_modifier_delay: Option<u64>,
    pub word_separators: Option<Vec<String>>,
    pub backspace_limit: Option<u64>,
    pub apply_patch: Option<bool>,
    pub keyboard_layout: Option<Vec<(String, String)>>,
    pub search_trigger: Option<String>,
    pub search_shortcut: Option<String>,
    pub undo_backspace: Option<bool>,
    pub show_icon: Option<bool>,
    pub show_notifications: Option<bool>,
    pub secure_input_notification: Option<bool>,
    pub pre_paste_delay: Option<u64>,
    pub restore_clipboard_delay: Option<u64>,
    pub paste_shortcut_event_delay: Option<u64>,
    pub post_form_delay: Option<u64>,
    pub post_search_delay: Option<u64>,
    pub emulate_alt_codes: Option<bool>,
    pub win32_exclude_orphan_events: Option<bool>,
    pub win32_keyboard_layout_cache_interval: Option<i64>,
    pub x11_use_xclip_backend: Option<bool>,
    pub x11_use_xdotool_backend: Option<bool>,
    pub use_standard_includes: Option<bool>,
    pub includes: Option<Vec<String>>,
    pub extra_includes: Option<Vec<String>>,
    pub excludes: Option<Vec<String>>,
    pub extra_excludes: Option<Vec<String>>,
    pub filter_class: Option<String>,
    pub filter_exec: Option<String>,
    pub filter_os: Option<String>,
    pub filter_title: Option<String>,
}

/// The mathematical content of a raw configuration record.
#[verifier::ext_equal]
pub struct YamlView {
    pub label: Option<Seq<char>>,
    pub backend: Option<Seq<char>>,
    pub enable: Option<bool>,
    pub clipboard_threshold: Option<u64>,
    pub auto_restart: Option<bool>,
    pub toggle_key: Option<Seq<char>>,
    pub preserve_clipboard: Option<bool>,
    pub paste_shortcut: Option<Seq<char>>,
    pub disable_x11_fast_inject: Option<bool>,
    pub inject_delay: Option<u64>,
    pub key_delay: Option<u64>,
    pub backspace_delay: Option<u64>,
    pub evdev_modifier_delay: Option<u64>,
    pub word_separators: Option<Seq<Seq<char>>>,
    pub backspace_limit: Option<u64>,
    pub apply_patch: Option<bool>,
    pub keyboard_layout: Option<Seq<(Seq<char>, Seq<char>)>>,
    pub search_trigger: Option<Seq<char>>,
    pub search_shortcut: Option<Seq<char>>,
    pub undo_backspace: Option<bool>,
    pub show_icon: Option<bool>,
    pub show_notifications: Option<bool>,
    pub secure_input_notification: Option<bool>,
    pub pre_paste_delay: Option<u64>,
    pub restore_clipboard_delay: Option<u64>,
    pub paste_shortcut_event_delay: Option<u64>,
    pub post_form_delay: Option<u64>,
    pub post_search_delay: Option<u64>,
    pub emulate_alt_codes: Option<bool>,
    pub win32_exclude_orphan_events: Option<bool>,
    pub win32_keyboard_layout_cache_interval: Option<i64>,
    pub x11_use_xclip_backend: Option<bool>,
    pub x11_use_xdotool_backend: Option<bool>,
    pub use_standard_includes: Option<bool>,
    pub includes: Option<Seq<Seq<char>>>,
    pub extra_includes: Option<Seq<Seq<char>>>,
    pub excludes: Option<Seq<Seq<char>>>,
    pub extra_excludes: Option<Seq<Seq<char>>>,
    pub filter_class: Option<Seq<char>>,
    pub filter_exec: Option<Seq<char>>,
    pub filter_os: Option<Seq<char>>,
    pub filter_title: Option<Seq<char>>,
}

impl View for YAMLConfig {
    type V = YamlView;

    open spec fn view(&self) -> YamlView {
        YamlView {
            label: view_opt_str(self.label),
            backend: view_opt_str(self.backend),
            enable: self.enable,
            clipboard_threshold: self.clipboard_threshold,
            auto_restart: self.auto_restart,
            toggle_key: view_opt_str(self.toggle_key),
            preserve_clipboard: self.preserve_clipboard,
            paste_shortcut: view_opt_str(self.paste_shortcut),
            disable_x11_fast_inject: self.disable_x11_fast_inject,
            inject_delay: self.inject_delay,
            key_delay: self.key_delay,
            backspace_delay: self.backspace_delay,
            evdev_modifier_delay: self.evdev_modifier_delay,
            word_separators: view_opt_list(self.word_separators),
            backspace_limit: self.backspace_limit,
            apply_patch: self.apply_patch,
            keyboard_layout: view_opt_map(self.keyboard_layout),
            search_trigger: view_opt_str(self.search_trigger),
            search_shortcut: view_opt_str(self.search_shortcut),
            undo_backspace: self.undo_backspace,
            show_icon: self.show_icon,
            show_notifications: self.show_notifications,
            secure_input_notification: self.secure_input_notification,
            pre_paste_delay: self.pre_paste_delay,
            restore_clipboard_delay: self.restore_clipboard_delay,
            paste_shortcut_event_delay: self.paste_shortcut_event_delay,
            post_form_delay: self.post_form_delay,
            post_search_delay: self.post_search_delay,
            emulate_alt_codes: self.emulate_alt_codes,
            win32_exclude_orphan_events: self.win32_exclude_orphan_events,
            win32_keyboard_layout_cache_interval: self.win32_keyboard_layout_cache_interval,
            x11_use_xclip_backend: self.x11_use_xclip_backend,
            x11_use_xdotool_backend: self.x11_use_xdotool_backend,
            use_standard_includes: self.use_standard_includes,
            includes: view_opt_list(self.includes),
            extra_includes: view_opt_list(self.extra_includes),
            excludes: view_opt_list(self.excludes),
            extra_excludes: view_opt_list(self.extra_excludes),
            filter_class: view_opt_str(self.filter_class),
            filter_exec: view_opt_str(self.filter_exec),
            filter_os: view_opt_str(self.filter_os),
            filter_title: view_opt_str(self.filter_title),
        }
    }
}

/// The raw record with nothing set.
pub open spec fn yaml_all_unset() -> YamlView {
    YamlView {
        label: None,
        backend: None,
        enable: None,
        clipboard_threshold: None,
        auto_restart: None,
        toggle_key: None,
        preserve_clipboard: None,
        paste_shortcut: None,
        disable_x11_fast_inject: None,
        inject_delay: None,
        key_delay: None,
        backspace_delay: None,
        evdev_modifier_delay: None,
        word_separators: None,
        backspace_limit: None,
        apply_patch: None,
        keyboard_layout: None,
        search_trigger: None,
        search_shortcut: None,
        undo_backspace: None,
        show_icon: None,
        show_notifications: None,
        secure_input_notification: None,
        pre_paste_delay: None,
        restore_clipboard_delay: None,
        paste_shortcut_event_delay: None,
        post_form_delay: None,
        post_search_delay: None,
        emulate_alt_codes: None,
        win32_exclude_orphan_events: None,
        win32_keyboard_layout_cache_interval: None,
        x11_use_xclip_backend: None,
        x11_use_xdotool_backend: None,
        use_standard_includes: None,
        includes: None,
        extra_includes: None,
        excludes: None,
        extra_excludes: None,
        filter_class: None,
        filter_exec: None,
        filter_os: None,
        filter_title: None,
    }
}

/// The record a raw document stands for: every field taken as read,
/// except that `key_delay` falls back to the legacy `backspace_delay`
/// key when the new key is absent.
pub open spec fn parsed_of_yaml(y: YamlView) -> ConfigView {
    ConfigView {
        label: y.label,
        backend: y.backend,
        enable: y.enable,
        clipboard_threshold: y.clipboard_threshold,
        auto_restart: y.auto_restart,
        toggle_key: y.toggle_key,
        preserve_clipboard: y.preserve_clipboard,
        paste_shortcut: y.paste_shortcut,
        disable_x11_fast_inject: y.disable_x11_fast_inject,
        inject_delay: y.inject_delay,
        key_delay: if y.key_delay is Some {
            y.key_delay
        } else {
            y.backspace_delay
        },
        evdev_modifier_delay: y.evdev_modifier_delay,
        word_separators: y.word_separators,
        backspace_limit: y.backspace_limit,
        apply_patch: y.apply_patch,
        keyboard_layout: y.keyboard_layout,
        search_trigger: y.search_trigger,
        search_shortcut: y.search_shortcut,
        undo_backspace: y.undo_backspace,
        show_icon: y.show_icon,
        show_notifications: y.show_notifications,
        secure_input_notification: y.secure_input_notification,
        pre_paste_delay: y.pre_paste_delay,
        restore_clipboard_delay: y.restore_clipboard_delay,
        paste_shortcut_event_delay: y.paste_shortcut_event_delay,
        post_form_delay: y.post_form_delay,
        post_search_delay: y.post_search_delay,
        emulate_alt_codes: y.emulate_alt_codes,
        win32_exclude_orphan_events: y.win32_exclude_orphan_events,
        win32_keyboard_layout_cache_interval: y.win32_keyboard_layout_cache_interval,
        x11_use_xclip_backend: y.x11_use_xclip_backend,
        x11_use_xdotool_backend: y.x11_use_xdotool_backend,
        use_standard_includes: y.use_standard_includes,
        includes: y.includes,
        extra_includes: y.extra_includes,
        excludes: y.excludes,
        extra_excludes: y.extra_excludes,
        filter_class: y.filter_class,
        filter_exec: y.filter_exec,
        filter_os: y.filter_os,
        filter_title: y.filter_title,
    }
}

impl YAMLConfig {
    /// The raw record with nothing set.
    pub fn new() -> (r: YAMLConfig)
        ensures
            r@ == yaml_all_unset(),
    {
        let r = YAMLConfig {
            label: None,
            backend: None,
            enable: None,
            clipboard_threshold: None,
            auto_restart: None,
            toggle_key: None,
            preserve_clipboard: None,
            paste_shortcut: None,
            disable_x11_fast_inject: None,
            inject_delay: None,
            key_delay: None,
            backspace_delay: None,
            evdev_modifier_delay: None,
            word_separators: None,
            backspace_limit: None,
            apply_patch: None,
            keyboard_layout: None,
            search_trigger: None,
            search_shortcut: None,
            undo_backspace: None,
            show_icon: None,
            show_notifications: None,
            secure_input_notification: None,
            pre_paste_delay: None,
            restore_clipboard_delay: None,
            paste_shortcut_event_delay: None,
            post_form_delay: None,
            post_search_delay: None,
            emulate_alt_codes: None,
            win32_exclude_orphan_events: None,
            win32_keyboard_layout_cache_interval: None,
            x11_use_xclip_backend: None,
            x11_use_xdotool_backend: None,
            use_standard_includes: None,
            includes: None,
            extra_includes: None,
            excludes: None,
            extra_excludes: None,
            filter_class: None,
            filter_exec: None,
            filter_os: None,
            filter_title: None,
        };
        assert(r@ =~= yaml_all_unset());
        r
    }

    /// Settles the raw record into the configuration the editor works
    /// on, applying the `backspace_delay` fallback.
    pub fn into_parsed(self) -> (r: ParsedConfig)
        ensures
            r@ == parsed_of_yaml(self@),
    {
        let key_delay = match self.key_delay {
            Some(v) => Some(v),
            None => self.backspace_delay,
        };
        let r = ParsedConfig {
            label: self.label,
            backend: self.backend,
            enable: self.enable,
            clipboard_threshold: self.clipboard_threshold,
            auto_restart: self.auto_restart,
            toggle_key: self.toggle_key,
            preserve_clipboard: self.preserve_clipboard,
            paste_shortcut: self.paste_shortcut,
            disable_x11_fast_inject: self.disable_x11_fast_inject,
            inject_delay: self.inject_delay,
            key_delay,
            evdev_modifier_delay: self.evdev_modifier_delay,
            word_separators: self.word_separators,
            backspace_limit: self.backspace_limit,
            apply_patch: self.apply_patch,
            keyboard_layout: self.keyboard_layout,
            search_trigger: self.search_trigger,
            search_shortcut: self.search_shortcut,
            undo_backspace: self.undo_backspace,
            show_icon: self.show_icon,
            show_notifications: self.show_notifications,
            secure_input_notification: self.secure_input_notification,
            pre_paste_delay: self.pre_paste_delay,
            restore_clipboard_delay: self.restore_clipboard_delay,
            paste_shortcut_event_delay: self.paste_shortcut_event_delay,
            post_form_delay: self.post_form_delay,
            post_search_delay: self.post_search_delay,
            emulate_alt_codes: self.emulate_alt_codes,
            win32_exclude_orphan_events: self.win32_exclude_orphan_events,
            win32_keyboard_layout_cache_interval: self.win32_keyboard_layout_cache_interval,
            x11_use_xclip_backend: self.x11_use_xclip_backend,
            x11_use_xdotool_backend: self.x11_use_xdotool_backend,
            use_standard_includes: self.use_standard_includes,
            includes: self.includes,
            extra_includes: self.extra_includes,
            excludes: self.excludes,
            extra_excludes: self.extra_excludes,
            filter_class: self.filter_class,
            filter_exec: self.filter_exec,
            filter_os: self.filter_os,
            filter_title: self.filter_title,
        };
        assert(r@ =~= parsed_of_yaml(self@));
        r
    }
}

/// The legacy fallback: a record whose `key_delay` is unset takes its
/// effective key delay from the old `backspace_delay` spelling, and an
/// explicit `key_delay` always wins.
pub proof fn lemma_legacy_key_delay(y: YamlView)
    ensures
        parsed_of_yaml(y).key_delay == (if y.key_delay is Some {
            y.key_delay
        } else {
            y.backspace_delay
        }),
{
}

} // verus!
