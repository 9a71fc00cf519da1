//! The configuration-file format: a flat YAML mapping, one line per
//! set field, with lists and the keyboard-layout mapping in flow
//! style.  The writer emits exactly the fields that are set, in a
//! fixed order, and never a field the user left unset.  The reader
//! accepts comments, blank lines, plain or quoted scalars, and
//! ignores unknown keys; on a duplicated key the last line wins.

use vstd::prelude::*;
use crate::config::{
    ParsedConfig, ConfigView, YAMLConfig, YamlView, yaml_all_unset, view_opt_str, view_opt_list,
    view_opt_map,
};
use crate::quoted::{quoted, push_quoted, parse_qbody};
use crate::num::{dec_digits, parse_u64_str, parse_i64_str, push_u64, push_i64, parse_u64_chars, parse_i64_chars};
use crate::scan::{
    parse_value, parse_value_exec,
    skip_inline, skip_noise, line_end, rtrim_inline, is_inline_space, parse_sqbody, expect_eol,
    skip_inline_exec, skip_noise_exec, line_end_exec, expect_eol_exec, char_is_inline_space,
};
use crate::text::{push_str_chars, chars_to_string, str_to_chars, chars_eq_str};
use crate::scan::{lemma_seg_at, lemma_skip_noise_stops};
use crate::quoted::lemma_parse_quoted;

verus! {

/// One `key: value` line for a string field, or nothing when unset.
pub open spec fn opt_str_line(key: Seq<char>, o: Option<Seq<char>>) -> Seq<char> {
    match o {
        None => Seq::empty(),
        Some(s) => key + ": "@ + quoted(s) + "\n"@,
    }
}

pub open spec fn opt_bool_line(key: Seq<char>, o: Option<bool>) -> Seq<char> {
    match o {
        None => Seq::empty(),
        Some(b) => key + ": "@ + (if b {
            "true"@
        } else {
            "false"@
        }) + "\n"@,
    }
}

pub open spec fn opt_u64_line(key: Seq<char>, o: Option<u64>) -> Seq<char> {
    match o {
        None => Seq::empty(),
        Some(n) => key + ": "@ + dec_digits(n as nat) + "\n"@,
    }
}

/// The digits of a signed value, with its sign.
pub open spec fn i64_text(n: i64) -> Seq<char> {
    if n >= 0 {
        dec_digits(n as nat)
    } else {
        seq!['-'] + dec_digits((-(n as int)) as nat)
    }
}

pub open spec fn opt_i64_line(key: Seq<char>, o: Option<i64>) -> Seq<char> {
    match o {
        None => Seq::empty(),
        Some(n) => key + ": "@ + i64_text(n) + "\n"@,
    }
}

/// The items of a flow list after its first: `, "item"` each.
pub open spec fn list_rest_text(vs: Seq<Seq<char>>) -> Seq<char>
    decreases vs.len(),
{
    if vs.len() == 0 {
        Seq::empty()
    } else {
        ", "@ + quoted(vs[0]) + list_rest_text(vs.drop_first())
    }
}

/// The items of a flow list: `"a", "b", ...`.
pub open spec fn list_items_text(vs: Seq<Seq<char>>) -> Seq<char> {
    if vs.len() == 0 {
        Seq::empty()
    } else {
        quoted(vs[0]) + list_rest_text(vs.drop_first())
    }
}

pub open spec fn opt_list_line(key: Seq<char>, o: Option<Seq<Seq<char>>>) -> Seq<char> {
    match o {
        None => Seq::empty(),
        Some(vs) => key + ": ["@ + list_items_text(vs) + "]\n"@,
    }
}

/// One `"key": "value"` pair of a flow mapping.
pub open spec fn map_pair_text(p: (Seq<char>, Seq<char>)) -> Seq<char> {
    quoted(p.0) + ": "@ + quoted(p.1)
}

pub open spec fn map_rest_text(ps: Seq<(Seq<char>, Seq<char>)>) -> Seq<char>
    decreases ps.len(),
{
    if ps.len() == 0 {
        Seq::empty()
    } else {
        ", "@ + map_pair_text(ps[0]) + map_rest_text(ps.drop_first())
    }
}

pub open spec fn map_items_text(ps: Seq<(Seq<char>, Seq<char>)>) -> Seq<char> {
    if ps.len() == 0 {
        Seq::empty()
    } else {
        map_pair_text(ps[0]) + map_rest_text(ps.drop_first())
    }
}

pub open spec fn opt_map_line(key: Seq<char>, o: Option<Seq<(Seq<char>, Seq<char>)>>) -> Seq<
    char,
> {
    match o {
        None => Seq::empty(),
        Some(ps) => key + ": {"@ + map_items_text(ps) + "}\n"@,
    }
}

/// The whole file for a configuration: exactly one line per set
/// field, in this fixed order, and nothing else.
pub open spec fn config_text_of(c: ConfigView) -> Seq<char> {
    opt_str_line("label"@, c.label)
        + opt_str_line("backend"@, c.backend)
        + opt_bool_line("enable"@, c.enable)
        + opt_u64_line("clipboard_threshold"@, c.clipboard_threshold)
        + opt_bool_line("auto_restart"@, c.auto_restart)
        + opt_str_line("toggle_key"@, c.toggle_key)
        + opt_bool_line("preserve_clipboard"@, c.preserve_clipboard)
        + opt_str_line("paste_shortcut"@, c.paste_shortcut)
        + opt_bool_line("disable_x11_fast_inject"@, c.disable_x11_fast_inject)
        + opt_u64_line("inject_delay"@, c.inject_delay)
        + opt_u64_line("key_delay"@, c.key_delay)
        + opt_u64_line("evdev_modifier_delay"@, c.evdev_modifier_delay)
        + opt_list_line("word_separators"@, c.word_separators)
        + opt_u64_line("backspace_limit"@, c.backspace_limit)
        + opt_bool_line("apply_patch"@, c.apply_patch)
        + opt_map_line("keyboard_layout"@, c.keyboard_layout)
        + opt_str_line("search_trigger"@, c.search_trigger)
        + opt_str_line("search_shortcut"@, c.search_shortcut)
        + opt_bool_line("undo_backspace"@, c.undo_backspace)
        + opt_bool_line("show_icon"@, c.show_icon)
        + opt_bool_line("show_notifications"@, c.show_notifications)
        + opt_bool_line("secure_input_notification"@, c.secure_input_notification)
        + opt_u64_line("pre_paste_delay"@, c.pre_paste_delay)
        + opt_u64_line("restore_clipboard_delay"@, c.restore_clipboard_delay)
        + opt_u64_line("paste_shortcut_event_delay"@, c.paste_shortcut_event_delay)
        + opt_u64_line("post_form_delay"@, c.post_form_delay)
        + opt_u64_line("post_search_delay"@, c.post_search_delay)
        + opt_bool_line("emulate_alt_codes"@, c.emulate_alt_codes)
        + opt_bool_line("win32_exclude_orphan_events"@, c.win32_exclude_orphan_events)
        + opt_i64_line("win32_keyboard_layout_cache_interval"@, c.win32_keyboard_layout_cache_interval)
        + opt_bool_line("x11_use_xclip_backend"@, c.x11_use_xclip_backend)
        + opt_bool_line("x11_use_xdotool_backend"@, c.x11_use_xdotool_backend)
        + opt_bool_line("use_standard_includes"@, c.use_standard_includes)
        + opt_list_line("includes"@, c.includes)
        + opt_list_line("extra_includes"@, c.extra_includes)
        + opt_list_line("excludes"@, c.excludes)
        + opt_list_line("extra_excludes"@, c.extra_excludes)
        + opt_str_line("filter_class"@, c.filter_class)
        + opt_str_line("filter_exec"@, c.filter_exec)
        + opt_str_line("filter_os"@, c.filter_os)
        + opt_str_line("filter_title"@, c.filter_title)
}

fn push_opt_str_line(out: &mut Vec<char>, key: &str, o: &Option<String>)
    ensures
        final(out)@ == old(out)@ + opt_str_line(key@, view_opt_str(*o)),
{
    match o {
        None => {
            assert(final(out)@ =~= old(out)@ + opt_str_line(key@, view_opt_str(*o)));
        },
        Some(s) => {
            push_str_chars(out, key);
            push_str_chars(out, ": ");
            push_quoted(out, s.as_str());
            push_str_chars(out, "\n");
            assert(final(out)@ =~= old(out)@ + opt_str_line(key@, view_opt_str(*o)));
        },
    }
}

fn push_opt_bool_line(out: &mut Vec<char>, key: &str, o: &Option<bool>)
    ensures
        final(out)@ == old(out)@ + opt_bool_line(key@, *o),
{
    match o {
        None => {
            assert(final(out)@ =~= old(out)@ + opt_bool_line(key@, *o));
        },
        Some(b) => {
            push_str_chars(out, key);
            push_str_chars(out, ": ");
            if *b {
                push_str_chars(out, "true");
            } else {
                push_str_chars(out, "false");
            }
            push_str_chars(out, "\n");
            assert(final(out)@ =~= old(out)@ + opt_bool_line(key@, *o));
        },
    }
}

fn push_opt_u64_line(out: &mut Vec<char>, key: &str, o: &Option<u64>)
    ensures
        final(out)@ == old(out)@ + opt_u64_line(key@, *o),
{
    match o {
        None => {
            assert(final(out)@ =~= old(out)@ + opt_u64_line(key@, *o));
        },
        Some(n) => {
            push_str_chars(out, key);
            push_str_chars(out, ": ");
            push_u64(out, *n);
            push_str_chars(out, "\n");
            assert(final(out)@ =~= old(out)@ + opt_u64_line(key@, *o));
        },
    }
}

fn push_opt_i64_line(out: &mut Vec<char>, key: &str, o: &Option<i64>)
    ensures
        final(out)@ == old(out)@ + opt_i64_line(key@, *o),
{
    match o {
        None => {
            assert(final(out)@ =~= old(out)@ + opt_i64_line(key@, *o));
        },
        Some(n) => {
            push_str_chars(out, key);
            push_str_chars(out, ": ");
            push_i64(out, *n);
            push_str_chars(out, "\n");
            assert(final(out)@ =~= old(out)@ + opt_i64_line(key@, *o));
        },
    }
}

pub proof fn lemma_list_rest_snoc(vs: Seq<Seq<char>>, x: Seq<char>)
    ensures
        list_rest_text(vs.push(x)) == list_rest_text(vs) + ", "@ + quoted(x),
    decreases vs.len(),
{
    reveal_with_fuel(list_rest_text, 2);
    if vs.len() == 0 {
        assert(vs.push(x)[0] == x);
        assert(vs.push(x).drop_first() =~= vs);
        assert(list_rest_text(vs.push(x)) =~= list_rest_text(vs) + ", "@ + quoted(x));
    } else {
        assert(vs.push(x).drop_first() =~= vs.drop_first().push(x));
        lemma_list_rest_snoc(vs.drop_first(), x);
        assert(vs.push(x)[0] == vs[0]);
        assert(list_rest_text(vs.push(x)) =~= list_rest_text(vs) + ", "@ + quoted(x));
    }
}

fn push_opt_list_line(out: &mut Vec<char>, key: &str, o: &Option<Vec<String>>)
    ensures
        final(out)@ == old(out)@ + opt_list_line(key@, view_opt_list(*o)),
{
    match o {
        None => {
            assert(final(out)@ =~= old(out)@ + opt_list_line(key@, view_opt_list(*o)));
        },
        Some(vs) => {
            let ghost vsv = vs@.map_values(|s: String| s@);
            push_str_chars(out, key);
            push_str_chars(out, ": [");
            let n = vs.len();
            let mut i: usize = 0;
            while i < n
                invariant
                    i <= n,
                    n == vs@.len(),
                    vsv == vs@.map_values(|s: String| s@),
                    i == 0 ==> out@ == old(out)@ + key@ + ": ["@,
                    i > 0 ==> out@ == old(out)@ + key@ + ": ["@ + quoted(vsv[0]) + list_rest_text(
                        vsv.subrange(1, i as int),
                    ),
                decreases n - i,
            {
                if i > 0 {
                    push_str_chars(out, ", ");
                }
                push_quoted(out, vs[i].as_str());
                proof {
                    assert(vs[i as int]@ == vsv[i as int]);
                    if i > 0 {
                        lemma_list_rest_snoc(vsv.subrange(1, i as int), vsv[i as int]);
                        assert(vsv.subrange(1, i + 1 as int) =~= vsv.subrange(1, i as int).push(
                            vsv[i as int],
                        ));
                        assert(out@ =~= old(out)@ + key@ + ": ["@ + quoted(vsv[0])
                            + list_rest_text(vsv.subrange(1, i + 1 as int)));
                    } else {
                        assert(vsv.subrange(1, 1) =~= Seq::<Seq<char>>::empty());
                        assert(out@ =~= old(out)@ + key@ + ": ["@ + quoted(vsv[0])
                            + list_rest_text(vsv.subrange(1, 1)));
                    }
                }
                i += 1;
            }
            push_str_chars(out, "]\n");
            proof {
                if n > 0 {
                    assert(vsv.subrange(1, n as int) =~= vsv.drop_first());
                }
                assert(final(out)@ =~= old(out)@ + opt_list_line(key@, view_opt_list(*o)));
            }
        },
    }
}

proof fn lemma_map_rest_snoc(ps: Seq<(Seq<char>, Seq<char>)>, x: (Seq<char>, Seq<char>))
    ensures
        map_rest_text(ps.push(x)) == map_rest_text(ps) + ", "@ + map_pair_text(x),
    decreases ps.len(),
{
    reveal_with_fuel(map_rest_text, 2);
    if ps.len() == 0 {
        assert(ps.push(x)[0] == x);
        assert(ps.push(x).drop_first() =~= ps);
        assert(map_rest_text(ps.push(x)) =~= map_rest_text(ps) + ", "@ + map_pair_text(x));
    } else {
        assert(ps.push(x).drop_first() =~= ps.drop_first().push(x));
        lemma_map_rest_snoc(ps.drop_first(), x);
        assert(ps.push(x)[0] == ps[0]);
        assert(map_rest_text(ps.push(x)) =~= map_rest_text(ps) + ", "@ + map_pair_text(x));
    }
}

fn push_opt_map_line(out: &mut Vec<char>, key: &str, o: &Option<Vec<(String, String)>>)
    ensures
        final(out)@ == old(out)@ + opt_map_line(key@, view_opt_map(*o)),
{
    match o {
        None => {
            assert(final(out)@ =~= old(out)@ + opt_map_line(key@, view_opt_map(*o)));
        },
        Some(ps) => {
            let ghost psv = ps@.map_values(|p: (String, String)| (p.0@, p.1@));
            push_str_chars(out, key);
            push_str_chars(out, ": {");
            let n = ps.len();
            let mut i: usize = 0;
            while i < n
                invariant
                    i <= n,
                    n == ps@.len(),
                    psv == ps@.map_values(|p: (String, String)| (p.0@, p.1@)),
                    i == 0 ==> out@ == old(out)@ + key@ + ": {"@,
                    i > 0 ==> out@ == old(out)@ + key@ + ": {"@ + map_pair_text(psv[0])
                        + map_rest_text(psv.subrange(1, i as int)),
                decreases n - i,
            {
                if i > 0 {
                    push_str_chars(out, ", ");
                }
                let p = &ps[i];
                push_quoted(out, p.0.as_str());
                push_str_chars(out, ": ");
                push_quoted(out, p.1.as_str());
                proof {
                    assert((ps[i as int].0@, ps[i as int].1@) == psv[i as int]);
                    if i > 0 {
                        lemma_map_rest_snoc(psv.subrange(1, i as int), psv[i as int]);
                        assert(psv.subrange(1, i + 1 as int) =~= psv.subrange(1, i as int).push(
                            psv[i as int],
                        ));
                        assert(out@ =~= old(out)@ + key@ + ": {"@ + map_pair_text(psv[0])
                            + map_rest_text(psv.subrange(1, i + 1 as int)));
                    } else {
                        assert(psv.subrange(1, 1) =~= Seq::<(Seq<char>, Seq<char>)>::empty());
                        assert(out@ =~= old(out)@ + key@ + ": {"@ + map_pair_text(psv[0])
                            + map_rest_text(psv.subrange(1, 1)));
                    }
                }
                i += 1;
            }
            push_str_chars(out, "}\n");
            proof {
                if n > 0 {
                    assert(psv.subrange(1, n as int) =~= psv.drop_first());
                }
                assert(final(out)@ =~= old(out)@ + opt_map_line(key@, view_opt_map(*o)));
            }
        },
    }
}

/// Writes the configuration file, exactly as `config_text_of` states:
/// only the set fields appear, each on its own line, in the fixed
/// order.
pub fn emit_config_text(c: &ParsedConfig) -> (r: String)
    ensures
        r@ == config_text_of(c@),
{
    let mut out: Vec<char> = Vec::new();
    push_opt_str_line(&mut out, "label", &c.label);
    push_opt_str_line(&mut out, "backend", &c.backend);
    push_opt_bool_line(&mut out, "enable", &c.enable);
    push_opt_u64_line(&mut out, "clipboard_threshold", &c.clipboard_threshold);
    push_opt_bool_line(&mut out, "auto_restart", &c.auto_restart);
    push_opt_str_line(&mut out, "toggle_key", &c.toggle_key);
    push_opt_bool_line(&mut out, "preserve_clipboard", &c.preserve_clipboard);
    push_opt_str_line(&mut out, "paste_shortcut", &c.paste_shortcut);
    push_opt_bool_line(&mut out, "disable_x11_fast_inject", &c.disable_x11_fast_inject);
    push_opt_u64_line(&mut out, "inject_delay", &c.inject_delay);
    push_opt_u64_line(&mut out, "key_delay", &c.key_delay);
    push_opt_u64_line(&mut out, "evdev_modifier_delay", &c.evdev_modifier_delay);
    push_opt_list_line(&mut out, "word_separators", &c.word_separators);
    push_opt_u64_line(&mut out, "backspace_limit", &c.backspace_limit);
    push_opt_bool_line(&mut out, "apply_patch", &c.apply_patch);
    push_opt_map_line(&mut out, "keyboard_layout", &c.keyboard_layout);
    push_opt_str_line(&mut out, "search_trigger", &c.search_trigger);
    push_opt_str_line(&mut out, "search_shortcut", &c.search_shortcut);
    push_opt_bool_line(&mut out, "undo_backspace", &c.undo_backspace);
    push_opt_bool_line(&mut out, "show_icon", &c.show_icon);
    push_opt_bool_line(&mut out, "show_notifications", &c.show_notifications);
    push_opt_bool_line(&mut out, "secure_input_notification", &c.secure_input_notification);
    push_opt_u64_line(&mut out, "pre_paste_delay", &c.pre_paste_delay);
    push_opt_u64_line(&mut out, "restore_clipboard_delay", &c.restore_clipboard_delay);
    push_opt_u64_line(&mut out, "paste_shortcut_event_delay", &c.paste_shortcut_event_delay);
    push_opt_u64_line(&mut out, "post_form_delay", &c.post_form_delay);
    push_opt_u64_line(&mut out, "post_search_delay", &c.post_search_delay);
    push_opt_bool_line(&mut out, "emulate_alt_codes", &c.emulate_alt_codes);
    push_opt_bool_line(&mut out, "win32_exclude_orphan_events", &c.win32_exclude_orphan_events);
    push_opt_i64_line(&mut out, "win32_keyboard_layout_cache_interval", &c.win32_keyboard_layout_cache_interval);
    push_opt_bool_line(&mut out, "x11_use_xclip_backend", &c.x11_use_xclip_backend);
    push_opt_bool_line(&mut out, "x11_use_xdotool_backend", &c.x11_use_xdotool_backend);
    push_opt_bool_line(&mut out, "use_standard_includes", &c.use_standard_includes);
    push_opt_list_line(&mut out, "includes", &c.includes);
    push_opt_list_line(&mut out, "extra_includes", &c.extra_includes);
    push_opt_list_line(&mut out, "excludes", &c.excludes);
    push_opt_list_line(&mut out, "extra_excludes", &c.extra_excludes);
    push_opt_str_line(&mut out, "filter_class", &c.filter_class);
    push_opt_str_line(&mut out, "filter_exec", &c.filter_exec);
    push_opt_str_line(&mut out, "filter_os", &c.filter_os);
    push_opt_str_line(&mut out, "filter_title", &c.filter_title);
    chars_to_string(&out)
}

/// The first position at or after `i` holding a flow delimiter or the
/// end of the line.
pub open spec fn flow_end(t: Seq<char>, i: int) -> int
    decreases t.len() - i,
{
    if i < 0 || i >= t.len() {
        t.len() as int
    } else if t[i] == ',' || t[i] == ']' || t[i] == '}' || t[i] == ':' || t[i] == '\n' {
        i
    } else {
        flow_end(t, i + 1)
    }
}

/// One item of a flow collection: quoted, single-quoted, or plain up
/// to the next delimiter, with trailing space dropped.
pub open spec fn parse_flow_item(t: Seq<char>, i: int) -> Option<(Seq<char>, int)> {
    if i < 0 || i >= t.len() {
        None
    } else if t[i] == '"' {
        parse_qbody(t, i + 1)
    } else if t[i] == '\'' {
        parse_sqbody(t, i + 1)
    } else {
        let e = flow_end(t, i);
        Some((rtrim_inline(t.subrange(i, e)), e))
    }
}

/// The items of a flow list from just after `[` or a comma, up to and
/// past the closing `]`.
pub open spec fn parse_list_rest(t: Seq<char>, i: int) -> Option<(Seq<Seq<char>>, int)>
    decreases t.len() - i,
{
    let j = skip_inline(t, i);
    if i < 0 || j >= t.len() {
        None
    } else if t[j] == ']' {
        Some((Seq::empty(), j + 1))
    } else {
        match parse_flow_item(t, j) {
            None => None,
            Some((x, k)) => {
                let l = skip_inline(t, k);
                if l >= t.len() {
                    None
                } else if t[l] == ',' {
                    if l + 1 <= i {
                        None
                    } else {
                        match parse_list_rest(t, l + 1) {
                            None => None,
                            Some((vs, p)) => Some((seq![x] + vs, p)),
                        }
                    }
                } else if t[l] == ']' {
                    Some((seq![x], l + 1))
                } else {
                    None
                }
            },
        }
    }
}

/// The pairs of a flow mapping from just after `{` or a comma, up to
/// and past the closing `}`.
pub open spec fn parse_map_rest(t: Seq<char>, i: int) -> Option<(Seq<(Seq<char>, Seq<char>)>, int)>
    decreases t.len() - i,
{
    let j = skip_inline(t, i);
    if i < 0 || j >= t.len() {
        None
    } else if t[j] == '}' {
        Some((Seq::empty(), j + 1))
    } else {
        match parse_flow_item(t, j) {
            None => None,
            Some((kx, kk)) => {
                let l = skip_inline(t, kk);
                if l >= t.len() || t[l] != ':' {
                    None
                } else {
                    let m = skip_inline(t, l + 1);
                    match parse_flow_item(t, m) {
                        None => None,
                        Some((vx, vv)) => {
                            let w = skip_inline(t, vv);
                            if w >= t.len() {
                                None
                            } else if t[w] == ',' {
                                if w + 1 <= i {
                                    None
                                } else {
                                    match parse_map_rest(t, w + 1) {
                                        None => None,
                                        Some((ps, p)) => Some((seq![(kx, vx)] + ps, p)),
                                    }
                                }
                            } else if t[w] == '}' {
                                Some((seq![(kx, vx)], w + 1))
                            } else {
                                None
                            }
                        },
                    }
                }
            },
        }
    }
}

/// The position of the `:` that ends the key starting at `i`, or of
/// the line end when the line has none.
pub open spec fn colon_end(t: Seq<char>, i: int) -> int
    decreases t.len() - i,
{
    if i < 0 || i >= t.len() {
        t.len() as int
    } else if t[i] == ':' || t[i] == '\n' {
        i
    } else {
        colon_end(t, i + 1)
    }
}

/// The colon scan finds the first colon when nothing before it ends
/// the key.
pub proof fn lemma_colon_end_at(t: Seq<char>, i: int, j: int)
    requires
        0 <= i <= j < t.len(),
        forall|m: int| i <= m < j ==> t[m] != ':' && t[m] != '\n',
        t[j] == ':',
    ensures
        colon_end(t, i) == j,
    decreases j - i,
{
    if i < j {
        lemma_colon_end_at(t, i + 1, j);
    }
}

pub open spec fn parse_bool_tok(s: Seq<char>) -> Option<bool> {
    if s == "true"@ {
        Some(true)
    } else if s == "false"@ {
        Some(false)
    } else {
        None
    }
}

/// A string field's value and the position past its line.
pub open spec fn parse_str_field(t: Seq<char>, i: int) -> Option<(Seq<char>, int)> {
    match parse_value(t, i) {
        None => None,
        Some((x, p)) => match expect_eol(t, p) {
            None => None,
            Some(h) => Some((x, h)),
        },
    }
}

pub open spec fn parse_bool_field(t: Seq<char>, i: int) -> Option<(bool, int)> {
    match parse_str_field(t, i) {
        None => None,
        Some((x, h)) => match parse_bool_tok(x) {
            None => None,
            Some(b) => Some((b, h)),
        },
    }
}

pub open spec fn parse_u64_field(t: Seq<char>, i: int) -> Option<(u64, int)> {
    match parse_str_field(t, i) {
        None => None,
        Some((x, h)) => match parse_u64_str(x) {
            None => None,
            Some(n) => Some((n, h)),
        },
    }
}

pub open spec fn parse_i64_field(t: Seq<char>, i: int) -> Option<(i64, int)> {
    match parse_str_field(t, i) {
        None => None,
        Some((x, h)) => match parse_i64_str(x) {
            None => None,
            Some(n) => Some((n, h)),
        },
    }
}

pub open spec fn parse_list_field(t: Seq<char>, i: int) -> Option<(Seq<Seq<char>>, int)> {
    if 0 <= i < t.len() && t[i] == '[' {
        match parse_list_rest(t, i + 1) {
            None => None,
            Some((vs, p)) => match expect_eol(t, p) {
                None => None,
                Some(h) => Some((vs, h)),
            },
        }
    } else {
        None
    }
}

pub open spec fn parse_map_field(t: Seq<char>, i: int) -> Option<(Seq<(Seq<char>, Seq<char>)>, int)> {
    if 0 <= i < t.len() && t[i] == '{' {
        match parse_map_rest(t, i + 1) {
            None => None,
            Some((ps, p)) => match expect_eol(t, p) {
                None => None,
                Some(h) => Some((ps, h)),
            },
        }
    } else {
        None
    }
}

/// One group of recognised keys: `None` when the key is not in this
/// group; otherwise the parse of its value, the updated record, and
/// the position past the line.
pub open spec fn dispatch1(t: Seq<char>, vs: int, key: Seq<char>, acc: YamlView) -> Option<
    Option<(YamlView, int)>,
> {
    if key == "label"@ {
        Some(
            match parse_str_field(t, vs) {
                None => None,
                Some((x, h)) => Some((YamlView { label: Some(x), ..acc }, h)),
            },
        )
    } else if key == "backend"@ {
        Some(
            match parse_str_field(t, vs) {
                None => None,
                Some((x, h)) => Some((YamlView { backend: Some(x), ..acc }, h)),
            },
        )
    } else if key == "enable"@ {
        Some(
            match parse_bool_field(t, vs) {
                None => None,
                Some((x, h)) => Some((YamlView { enable: Some(x), ..acc }, h)),
            },
        )
    } else if key == "clipboard_threshold"@ {
        Some(
            match parse_u64_field(t, vs) {
                None => None,
                Some((x, h)) => Some((YamlView { clipboard_threshold: Some(x), ..acc }, h)),
            },
        )
    } else if key == "auto_restart"@ {
        Some(
            match parse_bool_field(t, vs) {
                None => None,
                Some((x, h)) => Some((YamlView { auto_restart: Some(x), ..acc }, h)),
            },
        )
    } else if key == "toggle_key"@ {
        Some(
            match parse_str_field(t, vs) {
                None => None,
                Some((x, h)) => Some((YamlView { toggle_key: Some(x), ..acc }, h)),
            },
        )
    } else if key == "preserve_clipboard"@ {
        Some(
            match parse_bool_field(t, vs) {
                None => None,
                Some((x, h)) => Some((YamlView { preserve_clipboard: Some(x), ..acc }, h)),
            },
        )
    } else if key == "paste_shortcut"@ {
        Some(
            match parse_str_field(t, vs) {
                None => None,
                Some((x, h)) => Some((YamlView { paste_shortcut: Some(x), ..acc }, h)),
            },
        )
    } else if key == "disable_x11_fast_inject"@ {
        Some(
            match parse_bool_field(t, vs) {
                None => None,
                Some((x, h)) => Some((YamlView { disable_x11_fast_inject: Some(x), ..acc }, h)),
            },
        )
    } else if key == "inject_delay"@ {
        Some(
            match parse_u64_field(t, vs) {
                None => None,
                Some((x, h)) => Some((YamlView { inject_delay: Some(x), ..acc }, h)),
            },
        )
    } else if key == "key_delay"@ {
        Some(
            match parse_u64_field(t, vs) {
                None => None,
                Some((x, h)) => Some((YamlView { key_delay: Some(x), ..acc }, h)),
            },
        )
    } else {
        None
    }
}

/// One group of recognised keys: `None` when the key is not in this
/// group; otherwise the parse of its value, the updated record, and
/// the position past the line.
pub open spec fn dispatch2(t: Seq<char>, vs: int, key: Seq<char>, acc: YamlView) -> Option<
    Option<(YamlView, int)>,
> {
    if key == "backspace_delay"@ {
        Some(
            match parse_u64_field(t, vs) {
                None => None,
                Some((x, h)) => Some((YamlView { backspace_delay: Some(x), ..acc }, h)),
            },
        )
    } else if key == "evdev_modifier_delay"@ {
        Some(
            match parse_u64_field(t, vs) {
                None => None,
                Some((x, h)) => Some((YamlView { evdev_modifier_delay: Some(x), ..acc }, h)),
            },
        )
    } else if key == "word_separators"@ {
        Some(
            match parse_list_field(t, vs) {
                None => None,
                Some((x, h)) => Some((YamlView { word_separators: Some(x), ..acc }, h)),
            },
        )
    } else if key == "backspace_limit"@ {
        Some(
            match parse_u64_field(t, vs) {
                None => None,
                Some((x, h)) => Some((YamlView { backspace_limit: Some(x), ..acc }, h)),
            },
        )
    } else if key == "apply_patch"@ {
        Some(
            match parse_bool_field(t, vs) {
                None => None,
                Some((x, h)) => Some((YamlView { apply_patch: Some(x), ..acc }, h)),
            },
        )
    } else if key == "keyboard_layout"@ {
        Some(
            match parse_map_field(t, vs) {
                None => None,
                Some((x, h)) => Some((YamlView { keyboard_layout: Some(x), ..acc }, h)),
            },
        )
    } else if key == "search_trigger"@ {
        Some(
            match parse_str_field(t, vs) {
                None => None,
                Some((x, h)) => Some((YamlView { search_trigger: Some(x), ..acc }, h)),
            },
        )
    } else if key == "search_shortcut"@ {
        Some(
            match parse_str_field(t, vs) {
                None => None,
                Some((x, h)) => Some((YamlView { search_shortcut: Some(x), ..acc }, h)),
            },
        )
    } else if key == "undo_backspace"@ {
        Some(
            match parse_bool_field(t, vs) {
                None => None,
                Some((x, h)) => Some((YamlView { undo_backspace: Some(x), ..acc }, h)),
            },
        )
    } else if key == "show_icon"@ {
        Some(
            match parse_bool_field(t, vs) {
                None => None,
                Some((x, h)) => Some((YamlView { show_icon: Some(x), ..acc }, h)),
            },
        )
    } else if key == "show_notifications"@ {
        Some(
            match parse_bool_field(t, vs) {
                None => None,
                Some((x, h)) => Some((YamlView { show_notifications: Some(x), ..acc }, h)),
            },
        )
    } else {
        None
    }
}

/// One group of recognised keys: `None` when the key is not in this
/// group; otherwise the parse of its value, the updated record, and
/// the position past the line.
pub open spec fn dispatch3(t: Seq<char>, vs: int, key: Seq<char>, acc: YamlView) -> Option<
    Option<(YamlView, int)>,
> {
    if key == "secure_input_notification"@ {
        Some(
            match parse_bool_field(t, vs) {
                None => None,
                Some((x, h)) => Some((YamlView { secure_input_notification: Some(x), ..acc }, h)),
            },
        )
    } else if key == "pre_paste_delay"@ {
        Some(
            match parse_u64_field(t, vs) {
                None => None,
                Some((x, h)) => Some((YamlView { pre_paste_delay: Some(x), ..acc }, h)),
            },
        )
    } else if key == "restore_clipboard_delay"@ {
        Some(
            match parse_u64_field(t, vs) {
                None => None,
                Some((x, h)) => Some((YamlView { restore_clipboard_delay: Some(x), ..acc }, h)),
            },
        )
    } else if key == "paste_shortcut_event_delay"@ {
        Some(
            match parse_u64_field(t, vs) {
                None => None,
                Some((x, h)) => Some((YamlView { paste_shortcut_event_delay: Some(x), ..acc }, h)),
            },
        )
    } else if key == "post_form_delay"@ {
        Some(
            match parse_u64_field(t, vs) {
                None => None,
                Some((x, h)) => Some((YamlView { post_form_delay: Some(x), ..acc }, h)),
            },
        )
    } else if key == "post_search_delay"@ {
        Some(
            match parse_u64_field(t, vs) {
                None => None,
                Some((x, h)) => Some((YamlView { post_search_delay: Some(x), ..acc }, h)),
            },
        )
    } else if key == "emulate_alt_codes"@ {
        Some(
            match parse_bool_field(t, vs) {
                None => None,
                Some((x, h)) => Some((YamlView { emulate_alt_codes: Some(x), ..acc }, h)),
            },
        )
    } else if key == "win32_exclude_orphan_events"@ {
        Some(
            match parse_bool_field(t, vs) {
                None => None,
                Some((x, h)) => Some((YamlView { win32_exclude_orphan_events: Some(x), ..acc }, h)),
            },
        )
    } else if key == "win32_keyboard_layout_cache_interval"@ {
        Some(
            match parse_i64_field(t, vs) {
                None => None,
                Some((x, h)) => Some((YamlView { win32_keyboard_layout_cache_interval: Some(x), ..acc }, h)),
            },
        )
    } else if key == "x11_use_xclip_backend"@ {
        Some(
            match parse_bool_field(t, vs) {
                None => None,
                Some((x, h)) => Some((YamlView { x11_use_xclip_backend: Some(x), ..acc }, h)),
            },
        )
    } else if key == "x11_use_xdotool_backend"@ {
        Some(
            match parse_bool_field(t, vs) {
                None => None,
                Some((x, h)) => Some((YamlView { x11_use_xdotool_backend: Some(x), ..acc }, h)),
            },
        )
    } else {
        None
    }
}

/// One group of recognised keys: `None` when the key is not in this
/// group; otherwise the parse of its value, the updated record, and
/// the position past the line.
pub open spec fn dispatch4(t: Seq<char>, vs: int, key: Seq<char>, acc: YamlView) -> Option<
    Option<(YamlView, int)>,
> {
    if key == "use_standard_includes"@ {
        Some(
            match parse_bool_field(t, vs) {
                None => None,
                Some((x, h)) => Some((YamlView { use_standard_includes: Some(x), ..acc }, h)),
            },
        )
    } else if key == "includes"@ {
        Some(
            match parse_list_field(t, vs) {
                None => None,
                Some((x, h)) => Some((YamlView { includes: Some(x), ..acc }, h)),
            },
        )
    } else if key == "extra_includes"@ {
        Some(
            match parse_list_field(t, vs) {
                None => None,
                Some((x, h)) => Some((YamlView { extra_includes: Some(x), ..acc }, h)),
            },
        )
    } else if key == "excludes"@ {
        Some(
            match parse_list_field(t, vs) {
                None => None,
                Some((x, h)) => Some((YamlView { excludes: Some(x), ..acc }, h)),
            },
        )
    } else if key == "extra_excludes"@ {
        Some(
            match parse_list_field(t, vs) {
                None => None,
                Some((x, h)) => Some((YamlView { extra_excludes: Some(x), ..acc }, h)),
            },
        )
    } else if key == "filter_class"@ {
        Some(
            match parse_str_field(t, vs) {
                None => None,
                Some((x, h)) => Some((YamlView { filter_class: Some(x), ..acc }, h)),
            },
        )
    } else if key == "filter_exec"@ {
        Some(
            match parse_str_field(t, vs) {
                None => None,
                Some((x, h)) => Some((YamlView { filter_exec: Some(x), ..acc }, h)),
            },
        )
    } else if key == "filter_os"@ {
        Some(
            match parse_str_field(t, vs) {
                None => None,
                Some((x, h)) => Some((YamlView { filter_os: Some(x), ..acc }, h)),
            },
        )
    } else if key == "filter_title"@ {
        Some(
            match parse_str_field(t, vs) {
                None => None,
                Some((x, h)) => Some((YamlView { filter_title: Some(x), ..acc }, h)),
            },
        )
    } else {
        None
    }
}

/// The full key dispatch: a known key parses its typed value, an
/// unknown key's whole line is ignored.
pub open spec fn dispatch_key(t: Seq<char>, i: int, vs: int, key: Seq<char>, acc: YamlView) -> Option<(YamlView, int)> {
    match dispatch1(t, vs, key, acc) {
        Some(r) => r,
        None => match dispatch2(t, vs, key, acc) {
            Some(r) => r,
            None => match dispatch3(t, vs, key, acc) {
                Some(r) => r,
                None => match dispatch4(t, vs, key, acc) {
                    Some(r) => r,
                    None => {
                        let le = line_end(t, i);
                        Some((acc, if le >= t.len() {
                            t.len() as int
                        } else {
                            le + 1
                        }))
                    },
                },
            },
        },
    }
}

/// One recognised line after another; `i` must stand on the first
/// real character of a line.  A known key sets its field (the last
/// line wins on duplicates); an unknown key's line is ignored.
pub open spec fn parse_config_rec(t: Seq<char>, i: int, acc: YamlView) -> Option<YamlView>
    decreases t.len() - i, 1int,
{
    if i < 0 || i > t.len() {
        None
    } else if i == t.len() {
        Some(acc)
    } else {
        let ce = colon_end(t, i);
        if ce >= t.len() || t[ce] != ':' {
            None
        } else {
            let key = t.subrange(i, ce);
            let vs = skip_inline(t, ce + 1);
            match dispatch_key(t, i, vs, key, acc) {
                None => None,
                Some((acc2, h)) => parse_config_cont(t, i, h, acc2),
            }
        }
    }
}

/// After one line was consumed up to `h`: skip noise and go on with
/// the next line.
pub open spec fn parse_config_cont(t: Seq<char>, i: int, h: int, acc: YamlView) -> Option<
    YamlView,
>
    decreases t.len() - i, 0int,
{
    let nxt = skip_noise(t, h, false);
    if nxt <= i || nxt > t.len() {
        None
    } else {
        parse_config_rec(t, nxt, acc)
    }
}

/// A field the user never touched is never written: an unset field
/// contributes no line at all to the file.
pub proof fn lemma_unset_field_writes_nothing(key: Seq<char>)
    ensures
        opt_str_line(key, None) == Seq::<char>::empty(),
        opt_bool_line(key, None) == Seq::<char>::empty(),
        opt_u64_line(key, None) == Seq::<char>::empty(),
        opt_i64_line(key, None) == Seq::<char>::empty(),
        opt_list_line(key, None) == Seq::<char>::empty(),
        opt_map_line(key, None) == Seq::<char>::empty(),
{
}

/// A whole configuration document.
pub open spec fn parse_config_doc(t: Seq<char>) -> Option<YamlView> {
    parse_config_rec(t, skip_noise(t, 0, false), yaml_all_unset())
}

/// A YAML text is empty when every line holds nothing but whitespace
/// or a `#` comment; `in_comment` says whether position `i` is already
/// inside a comment.
pub open spec fn yaml_empty_from(t: Seq<char>, i: int, in_comment: bool) -> bool
    decreases t.len() - i,
{
    if i < 0 || i >= t.len() {
        true
    } else if t[i] == '\n' {
        yaml_empty_from(t, i + 1, false)
    } else if in_comment {
        yaml_empty_from(t, i + 1, true)
    } else if crate::text::is_space(t[i]) {
        yaml_empty_from(t, i + 1, false)
    } else if t[i] == '#' {
        yaml_empty_from(t, i + 1, true)
    } else {
        false
    }
}

/// An empty or comment-only text counts as a valid, all-defaults
/// configuration rather than a parse error.
pub fn is_yaml_empty(yaml: &str) -> (r: bool)
    ensures
        r == yaml_empty_from(yaml@, 0, false),
{
    let v = str_to_chars(yaml);
    let n = v.len();
    let mut i: usize = 0;
    let mut in_comment = false;
    while i < n
        invariant
            i <= n,
            n == v@.len(),
            v@ == yaml@,
            yaml_empty_from(yaml@, 0, false) == yaml_empty_from(yaml@, i as int, in_comment),
        decreases n - i,
    {
        let c = v[i];
        if c == '\n' {
            in_comment = false;
        } else if in_comment {
        } else if crate::text::char_is_space(c) {
        } else if c == '#' {
            in_comment = true;
        } else {
            return false;
        }
        i += 1;
    }
    true
}

impl YAMLConfig {
    /// Reads a configuration text: an empty or comment-only text is a
    /// valid, all-defaults record; anything else must parse.
    pub fn parse_from_str(yaml: &str) -> (r: Option<YAMLConfig>)
        ensures
            match r {
                Some(c) => (yaml_empty_from(yaml@, 0, false) && c@ == yaml_all_unset()) || (
                !yaml_empty_from(yaml@, 0, false) && parse_config_doc(yaml@) == Some(c@)),
                None => !yaml_empty_from(yaml@, 0, false) && parse_config_doc(yaml@) is None,
            },
    {
        if is_yaml_empty(yaml) {
            Some(YAMLConfig::new())
        } else {
            parse_config_text(yaml)
        }
    }
}

fn flow_end_exec(v: &Vec<char>, i: usize) -> (r: usize)
    requires
        i <= v@.len(),
    ensures
        r == flow_end(v@, i as int),
        i <= r <= v@.len(),
{
    let n = v.len();
    let mut cur = i;
    while cur < n && v[cur] != ',' && v[cur] != ']' && v[cur] != '}' && v[cur] != ':' && v[cur]
        != '\n'
        invariant
            i <= cur <= n,
            n == v@.len(),
            flow_end(v@, i as int) == flow_end(v@, cur as int),
        decreases n - cur,
    {
        cur += 1;
    }
    cur
}

fn colon_end_exec(v: &Vec<char>, i: usize) -> (r: usize)
    requires
        i <= v@.len(),
    ensures
        r == colon_end(v@, i as int),
        i <= r <= v@.len(),
{
    let n = v.len();
    let mut cur = i;
    while cur < n && v[cur] != ':' && v[cur] != '\n'
        invariant
            i <= cur <= n,
            n == v@.len(),
            colon_end(v@, i as int) == colon_end(v@, cur as int),
        decreases n - cur,
    {
        cur += 1;
    }
    cur
}

fn parse_flow_item_exec(v: &Vec<char>, i: usize) -> (r: Option<(Vec<char>, usize)>)
    requires
        i <= v@.len(),
    ensures
        match r {
            Some(p) => parse_flow_item(v@, i as int) == Some((p.0@, p.1 as int)) && i <= p.1
                <= v@.len(),
            None => parse_flow_item(v@, i as int) is None,
        },
{
    let n = v.len();
    if i >= n {
        return None;
    }
    let c = v[i];
    if c == '"' {
        match crate::quoted::parse_quoted_at(v, i) {
            Some(p) => Some(p),
            None => None,
        }
    } else if c == '\'' {
        match crate::scan::parse_sqbody_pub(v, i + 1) {
            Some(p) => Some(p),
            None => None,
        }
    } else {
        let e = flow_end_exec(v, i);
        let mut out: Vec<char> = Vec::new();
        let mut k: usize = i;
        while k < e
            invariant
                i <= k <= e <= v@.len(),
                out@ == v@.subrange(i as int, k as int),
            decreases e - k,
        {
            out.push(v[k]);
            assert(out@ =~= v@.subrange(i as int, k + 1 as int));
            k += 1;
        }
        while out.len() > 0 && char_is_inline_space(out[out.len() - 1])
            invariant
                rtrim_inline(out@) == rtrim_inline(
                    v@.subrange(i as int, flow_end(v@, i as int)),
                ),
            decreases out@.len(),
        {
            let _ = out.pop();
        }
        proof {
            assert(rtrim_inline(out@) == out@);
        }
        Some((out, e))
    }
}

pub fn parse_list_rest_pub(v: &Vec<char>, start: usize) -> (r: Option<(Vec<String>, usize)>)
    requires
        start <= v@.len(),
    ensures
        match r {
            Some(p) => parse_list_rest(v@, start as int) == Some(
                (p.0@.map_values(|s: String| s@), p.1 as int),
            ) && p.1 <= v@.len(),
            None => parse_list_rest(v@, start as int) is None,
        },
{
    let ghost t = v@;
    let n = v.len();
    let mut acc: Vec<String> = Vec::new();
    let mut cur = start;
    loop
        invariant
            start <= cur <= n,
            n == t.len(),
            v@ == t,
            match parse_list_rest(t, cur as int) {
                Some(p) => parse_list_rest(t, start as int) == Some(
                    (acc@.map_values(|s: String| s@) + p.0, p.1),
                ),
                None => parse_list_rest(t, start as int) is None,
            },
        decreases n - cur,
    {
        let j = skip_inline_exec(v, cur);
        if j >= n {
            return None;
        }
        if v[j] == ']' {
            proof {
                assert(acc@.map_values(|s: String| s@) + Seq::<Seq<char>>::empty() =~= acc@
                    .map_values(|s: String| s@));
            }
            return Some((acc, j + 1));
        }
        let (x, k) = match parse_flow_item_exec(v, j) {
            Some(p) => p,
            None => {
                return None;
            },
        };
        let l = skip_inline_exec(v, k);
        if l >= n {
            return None;
        }
        if v[l] == ',' {
            if l + 1 <= cur {
                return None;
            }
            let ghost acc0 = acc@.map_values(|s: String| s@);
            acc.push(chars_to_string(&x));
            proof {
                assert(acc@.map_values(|s: String| s@) =~= acc0.push(x@));
                if let Some(p) = parse_list_rest(t, l + 1 as int) {
                    assert(acc0 + (seq![x@] + p.0) =~= acc@.map_values(|s: String| s@) + p.0);
                }
            }
            cur = l + 1;
        } else if v[l] == ']' {
            let ghost acc0 = acc@.map_values(|s: String| s@);
            acc.push(chars_to_string(&x));
            proof {
                assert(acc@.map_values(|s: String| s@) =~= acc0.push(x@));
                assert(parse_list_rest(t, cur as int) == Some((seq![x@], l + 1 as int)));
                assert(acc0 + seq![x@] =~= acc@.map_values(|s: String| s@));
            }
            return Some((acc, l + 1));
        } else {
            return None;
        }
    }
}

fn parse_map_rest_exec(v: &Vec<char>, start: usize) -> (r: Option<(Vec<(String, String)>, usize)>)
    requires
        start <= v@.len(),
    ensures
        match r {
            Some(p) => parse_map_rest(v@, start as int) == Some(
                (p.0@.map_values(|q: (String, String)| (q.0@, q.1@)), p.1 as int),
            ) && p.1 <= v@.len(),
            None => parse_map_rest(v@, start as int) is None,
        },
{
    let ghost t = v@;
    let n = v.len();
    let mut acc: Vec<(String, String)> = Vec::new();
    let mut cur = start;
    loop
        invariant
            start <= cur <= n,
            n == t.len(),
            v@ == t,
            match parse_map_rest(t, cur as int) {
                Some(p) => parse_map_rest(t, start as int) == Some(
                    (acc@.map_values(|q: (String, String)| (q.0@, q.1@)) + p.0, p.1),
                ),
                None => parse_map_rest(t, start as int) is None,
            },
        decreases n - cur,
    {
        let j = skip_inline_exec(v, cur);
        if j >= n {
            return None;
        }
        if v[j] == '}' {
            proof {
                assert(acc@.map_values(|q: (String, String)| (q.0@, q.1@)) + Seq::<
                    (Seq<char>, Seq<char>),
                >::empty() =~= acc@.map_values(|q: (String, String)| (q.0@, q.1@)));
            }
            return Some((acc, j + 1));
        }
        let (kx, kk) = match parse_flow_item_exec(v, j) {
            Some(p) => p,
            None => {
                return None;
            },
        };
        let l = skip_inline_exec(v, kk);
        if l >= n || v[l] != ':' {
            return None;
        }
        let m = skip_inline_exec(v, l + 1);
        let (vx, vv) = match parse_flow_item_exec(v, m) {
            Some(p) => p,
            None => {
                return None;
            },
        };
        let w = skip_inline_exec(v, vv);
        if w >= n {
            return None;
        }
        if v[w] == ',' {
            if w + 1 <= cur {
                return None;
            }
            let ghost acc0 = acc@.map_values(|q: (String, String)| (q.0@, q.1@));
            acc.push((chars_to_string(&kx), chars_to_string(&vx)));
            proof {
                assert(acc@.map_values(|q: (String, String)| (q.0@, q.1@)) =~= acc0.push(
                    (kx@, vx@),
                ));
                if let Some(p) = parse_map_rest(t, w + 1 as int) {
                    assert(acc0 + (seq![(kx@, vx@)] + p.0) =~= acc@.map_values(
                        |q: (String, String)| (q.0@, q.1@),
                    ) + p.0);
                }
            }
            cur = w + 1;
        } else if v[w] == '}' {
            let ghost acc0 = acc@.map_values(|q: (String, String)| (q.0@, q.1@));
            acc.push((chars_to_string(&kx), chars_to_string(&vx)));
            proof {
                assert(acc@.map_values(|q: (String, String)| (q.0@, q.1@)) =~= acc0.push(
                    (kx@, vx@),
                ));
                assert(parse_map_rest(t, cur as int) == Some((seq![(kx@, vx@)], w + 1 as int)));
                assert(acc0 + seq![(kx@, vx@)] =~= acc@.map_values(
                    |q: (String, String)| (q.0@, q.1@),
                ));
            }
            return Some((acc, w + 1));
        } else {
            return None;
        }
    }
}

fn parse_str_field_exec(v: &Vec<char>, i: usize) -> (r: Option<(String, usize)>)
    requires
        i <= v@.len(),
    ensures
        match r {
            Some(p) => parse_str_field(v@, i as int) == Some((p.0@, p.1 as int)) && p.1 <= v@.len(),
            None => parse_str_field(v@, i as int) is None,
        },
{
    let (x, p) = match parse_value_exec(v, i) {
        Some(q) => q,
        None => {
            return None;
        },
    };
    let h = match expect_eol_exec(v, p) {
        Some(h) => h,
        None => {
            return None;
        },
    };
    Some((chars_to_string(&x), h))
}

fn parse_bool_field_exec(v: &Vec<char>, i: usize) -> (r: Option<(bool, usize)>)
    requires
        i <= v@.len(),
    ensures
        match r {
            Some(p) => parse_bool_field(v@, i as int) == Some((p.0, p.1 as int)) && p.1
                <= v@.len(),
            None => parse_bool_field(v@, i as int) is None,
        },
{
    let (x, p) = match parse_value_exec(v, i) {
        Some(q) => q,
        None => {
            return None;
        },
    };
    let h = match expect_eol_exec(v, p) {
        Some(h) => h,
        None => {
            return None;
        },
    };
    if chars_eq_str(&x, "true") {
        Some((true, h))
    } else if chars_eq_str(&x, "false") {
        Some((false, h))
    } else {
        None
    }
}

fn parse_u64_field_exec(v: &Vec<char>, i: usize) -> (r: Option<(u64, usize)>)
    requires
        i <= v@.len(),
    ensures
        match r {
            Some(p) => parse_u64_field(v@, i as int) == Some((p.0, p.1 as int)) && p.1 <= v@.len(),
            None => parse_u64_field(v@, i as int) is None,
        },
{
    let (x, p) = match parse_value_exec(v, i) {
        Some(q) => q,
        None => {
            return None;
        },
    };
    let h = match expect_eol_exec(v, p) {
        Some(h) => h,
        None => {
            return None;
        },
    };
    match parse_u64_chars(&x) {
        Some(n) => Some((n, h)),
        None => None,
    }
}

fn parse_i64_field_exec(v: &Vec<char>, i: usize) -> (r: Option<(i64, usize)>)
    requires
        i <= v@.len(),
    ensures
        match r {
            Some(p) => parse_i64_field(v@, i as int) == Some((p.0, p.1 as int)) && p.1 <= v@.len(),
            None => parse_i64_field(v@, i as int) is None,
        },
{
    let (x, p) = match parse_value_exec(v, i) {
        Some(q) => q,
        None => {
            return None;
        },
    };
    let h = match expect_eol_exec(v, p) {
        Some(h) => h,
        None => {
            return None;
        },
    };
    match parse_i64_chars(&x) {
        Some(n) => Some((n, h)),
        None => None,
    }
}

fn parse_list_field_exec(v: &Vec<char>, i: usize) -> (r: Option<(Vec<String>, usize)>)
    requires
        i <= v@.len(),
    ensures
        match r {
            Some(p) => parse_list_field(v@, i as int) == Some(
                (p.0@.map_values(|s: String| s@), p.1 as int),
            ) && p.1 <= v@.len(),
            None => parse_list_field(v@, i as int) is None,
        },
{
    let n = v.len();
    if i >= n || v[i] != '[' {
        return None;
    }
    let (vs, p) = match parse_list_rest_pub(v, i + 1) {
        Some(q) => q,
        None => {
            return None;
        },
    };
    let h = match expect_eol_exec(v, p) {
        Some(h) => h,
        None => {
            return None;
        },
    };
    Some((vs, h))
}

fn parse_map_field_exec(v: &Vec<char>, i: usize) -> (r: Option<(Vec<(String, String)>, usize)>)
    requires
        i <= v@.len(),
    ensures
        match r {
            Some(p) => parse_map_field(v@, i as int) == Some(
                (p.0@.map_values(|q: (String, String)| (q.0@, q.1@)), p.1 as int),
            ) && p.1 <= v@.len(),
            None => parse_map_field(v@, i as int) is None,
        },
{
    let n = v.len();
    if i >= n || v[i] != '{' {
        return None;
    }
    let (ps, p) = match parse_map_rest_exec(v, i + 1) {
        Some(q) => q,
        None => {
            return None;
        },
    };
    let h = match expect_eol_exec(v, p) {
        Some(h) => h,
        None => {
            return None;
        },
    };
    Some((ps, h))
}

#[verifier::rlimit(100)]
#[verifier::spinoff_prover]
fn dispatch1_exec(v: &Vec<char>, vs: usize, key: &Vec<char>, acc: &mut YAMLConfig) -> (r:
    Option<Option<usize>>)
    requires
        vs <= v@.len(),
    ensures
        match r {
            None => dispatch1(v@, vs as int, key@, old(acc)@) is None && final(acc)@ == old(
                acc,
            )@,
            Some(None) => dispatch1(v@, vs as int, key@, old(acc)@) == Some(
                None::<(YamlView, int)>,
            ),
            Some(Some(h)) => dispatch1(v@, vs as int, key@, old(acc)@) == Some(
                Some((final(acc)@, h as int)),
            ) && h <= v@.len(),
        },
{
    let ghost a0 = acc@;
    if chars_eq_str(key, "label") {
        match parse_str_field_exec(v, vs) {
            None => Some(None),
            Some((x, h)) => {
                acc.label = Some(x);
                proof {
                    assert(acc@ =~= YamlView { label: Some(x@), ..a0 });
                }
                Some(Some(h))
            },
        }
    } else if chars_eq_str(key, "backend") {
        match parse_str_field_exec(v, vs) {
            None => Some(None),
            Some((x, h)) => {
                acc.backend = Some(x);
                proof {
                    assert(acc@ =~= YamlView { backend: Some(x@), ..a0 });
                }
                Some(Some(h))
            },
        }
    } else if chars_eq_str(key, "enable") {
        match parse_bool_field_exec(v, vs) {
            None => Some(None),
            Some((x, h)) => {
                acc.enable = Some(x);
                proof {
                    assert(acc@ =~= YamlView { enable: Some(x), ..a0 });
                }
                Some(Some(h))
            },
        }
    } else if chars_eq_str(key, "clipboard_threshold") {
        match parse_u64_field_exec(v, vs) {
            None => Some(None),
            Some((x, h)) => {
                acc.clipboard_threshold = Some(x);
                proof {
                    assert(acc@ =~= YamlView { clipboard_threshold: Some(x), ..a0 });
                }
                Some(Some(h))
            },
        }
    } else if chars_eq_str(key, "auto_restart") {
        match parse_bool_field_exec(v, vs) {
            None => Some(None),
            Some((x, h)) => {
                acc.auto_restart = Some(x);
                proof {
                    assert(acc@ =~= YamlView { auto_restart: Some(x), ..a0 });
                }
                Some(Some(h))
            },
        }
    } else if chars_eq_str(key, "toggle_key") {
        match parse_str_field_exec(v, vs) {
            None => Some(None),
            Some((x, h)) => {
                acc.toggle_key = Some(x);
                proof {
                    assert(acc@ =~= YamlView { toggle_key: Some(x@), ..a0 });
                }
                Some(Some(h))
            },
        }
    } else if chars_eq_str(key, "preserve_clipboard") {
        match parse_bool_field_exec(v, vs) {
            None => Some(None),
            Some((x, h)) => {
                acc.preserve_clipboard = Some(x);
                proof {
                    assert(acc@ =~= YamlView { preserve_clipboard: Some(x), ..a0 });
                }
                Some(Some(h))
            },
        }
    } else if chars_eq_str(key, "paste_shortcut") {
        match parse_str_field_exec(v, vs) {
            None => Some(None),
            Some((x, h)) => {
                acc.paste_shortcut = Some(x);
                proof {
                    assert(acc@ =~= YamlView { paste_shortcut: Some(x@), ..a0 });
                }
                Some(Some(h))
            },
        }
    } else if chars_eq_str(key, "disable_x11_fast_inject") {
        match parse_bool_field_exec(v, vs) {
            None => Some(None),
            Some((x, h)) => {
                acc.disable_x11_fast_inject = Some(x);
                proof {
                    assert(acc@ =~= YamlView { disable_x11_fast_inject: Some(x), ..a0 });
                }
                Some(Some(h))
            },
        }
    } else if chars_eq_str(key, "inject_delay") {
        match parse_u64_field_exec(v, vs) {
            None => Some(None),
            Some((x, h)) => {
                acc.inject_delay = Some(x);
                proof {
                    assert(acc@ =~= YamlView { inject_delay: Some(x), ..a0 });
                }
                Some(Some(h))
            },
        }
    } else if chars_eq_str(key, "key_delay") {
        match parse_u64_field_exec(v, vs) {
            None => Some(None),
            Some((x, h)) => {
                acc.key_delay = Some(x);
                proof {
                    assert(acc@ =~= YamlView { key_delay: Some(x), ..a0 });
                }
                Some(Some(h))
            },
        }
    } else {
        None
    }
}

#[verifier::rlimit(100)]
#[verifier::spinoff_prover]
fn dispatch2_exec(v: &Vec<char>, vs: usize, key: &Vec<char>, acc: &mut YAMLConfig) -> (r:
    Option<Option<usize>>)
    requires
        vs <= v@.len(),
    ensures
        match r {
            None => dispatch2(v@, vs as int, key@, old(acc)@) is None && final(acc)@ == old(
                acc,
            )@,
            Some(None) => dispatch2(v@, vs as int, key@, old(acc)@) == Some(
                None::<(YamlView, int)>,
            ),
            Some(Some(h)) => dispatch2(v@, vs as int, key@, old(acc)@) == Some(
                Some((final(acc)@, h as int)),
            ) && h <= v@.len(),
        },
{
    let ghost a0 = acc@;
    if chars_eq_str(key, "backspace_delay") {
        match parse_u64_field_exec(v, vs) {
            None => Some(None),
            Some((x, h)) => {
                acc.backspace_delay = Some(x);
                proof {
                    assert(acc@ =~= YamlView { backspace_delay: Some(x), ..a0 });
                }
                Some(Some(h))
            },
        }
    } else if chars_eq_str(key, "evdev_modifier_delay") {
        match parse_u64_field_exec(v, vs) {
            None => Some(None),
            Some((x, h)) => {
                acc.evdev_modifier_delay = Some(x);
                proof {
                    assert(acc@ =~= YamlView { evdev_modifier_delay: Some(x), ..a0 });
                }
                Some(Some(h))
            },
        }
    } else if chars_eq_str(key, "word_separators") {
        match parse_list_field_exec(v, vs) {
            None => Some(None),
            Some((x, h)) => {
                acc.word_separators = Some(x);
                proof {
                    assert(acc@ =~= YamlView { word_separators: Some(x@.map_values(|s: String| s@)), ..a0 });
                }
                Some(Some(h))
            },
        }
    } else if chars_eq_str(key, "backspace_limit") {
        match parse_u64_field_exec(v, vs) {
            None => Some(None),
            Some((x, h)) => {
                acc.backspace_limit = Some(x);
                proof {
                    assert(acc@ =~= YamlView { backspace_limit: Some(x), ..a0 });
                }
                Some(Some(h))
            },
        }
    } else if chars_eq_str(key, "apply_patch") {
        match parse_bool_field_exec(v, vs) {
            None => Some(None),
            Some((x, h)) => {
                acc.apply_patch = Some(x);
                proof {
                    assert(acc@ =~= YamlView { apply_patch: Some(x), ..a0 });
                }
                Some(Some(h))
            },
        }
    } else if chars_eq_str(key, "keyboard_layout") {
        match parse_map_field_exec(v, vs) {
            None => Some(None),
            Some((x, h)) => {
                acc.keyboard_layout = Some(x);
                proof {
                    assert(acc@ =~= YamlView { keyboard_layout: Some(x@.map_values(|q: (String, String)| (q.0@, q.1@))), ..a0 });
                }
                Some(Some(h))
            },
        }
    } else if chars_eq_str(key, "search_trigger") {
        match parse_str_field_exec(v, vs) {
            None => Some(None),
            Some((x, h)) => {
                acc.search_trigger = Some(x);
                proof {
                    assert(acc@ =~= YamlView { search_trigger: Some(x@), ..a0 });
                }
                Some(Some(h))
            },
        }
    } else if chars_eq_str(key, "search_shortcut") {
        match parse_str_field_exec(v, vs) {
            None => Some(None),
            Some((x, h)) => {
                acc.search_shortcut = Some(x);
                proof {
                    assert(acc@ =~= YamlView { search_shortcut: Some(x@), ..a0 });
                }
                Some(Some(h))
            },
        }
    } else if chars_eq_str(key, "undo_backspace") {
        match parse_bool_field_exec(v, vs) {
            None => Some(None),
            Some((x, h)) => {
                acc.undo_backspace = Some(x);
                proof {
                    assert(acc@ =~= YamlView { undo_backspace: Some(x), ..a0 });
                }
                Some(Some(h))
            },
        }
    } else if chars_eq_str(key, "show_icon") {
        match parse_bool_field_exec(v, vs) {
            None => Some(None),
            Some((x, h)) => {
                acc.show_icon = Some(x);
                proof {
                    assert(acc@ =~= YamlView { show_icon: Some(x), ..a0 });
                }
                Some(Some(h))
            },
        }
    } else if chars_eq_str(key, "show_notifications") {
        match parse_bool_field_exec(v, vs) {
            None => Some(None),
            Some((x, h)) => {
                acc.show_notifications = Some(x);
                proof {
                    assert(acc@ =~= YamlView { show_notifications: Some(x), ..a0 });
                }
                Some(Some(h))
            },
        }
    } else {
        None
    }
}

#[verifier::rlimit(100)]
#[verifier::spinoff_prover]
fn dispatch3_exec(v: &Vec<char>, vs: usize, key: &Vec<char>, acc: &mut YAMLConfig) -> (r:
    Option<Option<usize>>)
    requires
        vs <= v@.len(),
    ensures
        match r {
            None => dispatch3(v@, vs as int, key@, old(acc)@) is None && final(acc)@ == old(
                acc,
            )@,
            Some(None) => dispatch3(v@, vs as int, key@, old(acc)@) == Some(
                None::<(YamlView, int)>,
            ),
            Some(Some(h)) => dispatch3(v@, vs as int, key@, old(acc)@) == Some(
                Some((final(acc)@, h as int)),
            ) && h <= v@.len(),
        },
{
    let ghost a0 = acc@;
    if chars_eq_str(key, "secure_input_notification") {
        match parse_bool_field_exec(v, vs) {
            None => Some(None),
            Some((x, h)) => {
                acc.secure_input_notification = Some(x);
                proof {
                    assert(acc@ =~= YamlView { secure_input_notification: Some(x), ..a0 });
                }
                Some(Some(h))
            },
        }
    } else if chars_eq_str(key, "pre_paste_delay") {
        match parse_u64_field_exec(v, vs) {
            None => Some(None),
            Some((x, h)) => {
                acc.pre_paste_delay = Some(x);
                proof {
                    assert(acc@ =~= YamlView { pre_paste_delay: Some(x), ..a0 });
                }
                Some(Some(h))
            },
        }
    } else if chars_eq_str(key, "restore_clipboard_delay") {
        match parse_u64_field_exec(v, vs) {
            None => Some(None),
            Some((x, h)) => {
                acc.restore_clipboard_delay = Some(x);
                proof {
                    assert(acc@ =~= YamlView { restore_clipboard_delay: Some(x), ..a0 });
                }
                Some(Some(h))
            },
        }
    } else if chars_eq_str(key, "paste_shortcut_event_delay") {
        match parse_u64_field_exec(v, vs) {
            None => Some(None),
            Some((x, h)) => {
                acc.paste_shortcut_event_delay = Some(x);
                proof {
                    assert(acc@ =~= YamlView { paste_shortcut_event_delay: Some(x), ..a0 });
                }
                Some(Some(h))
            },
        }
    } else if chars_eq_str(key, "post_form_delay") {
        match parse_u64_field_exec(v, vs) {
            None => Some(None),
            Some((x, h)) => {
                acc.post_form_delay = Some(x);
                proof {
                    assert(acc@ =~= YamlView { post_form_delay: Some(x), ..a0 });
                }
                Some(Some(h))
            },
        }
    } else if chars_eq_str(key, "post_search_delay") {
        match parse_u64_field_exec(v, vs) {
            None => Some(None),
            Some((x, h)) => {
                acc.post_search_delay = Some(x);
                proof {
                    assert(acc@ =~= YamlView { post_search_delay: Some(x), ..a0 });
                }
                Some(Some(h))
            },
        }
    } else if chars_eq_str(key, "emulate_alt_codes") {
        match parse_bool_field_exec(v, vs) {
            None => Some(None),
            Some((x, h)) => {
                acc.emulate_alt_codes = Some(x);
                proof {
                    assert(acc@ =~= YamlView { emulate_alt_codes: Some(x), ..a0 });
                }
                Some(Some(h))
            },
        }
    } else if chars_eq_str(key, "win32_exclude_orphan_events") {
        match parse_bool_field_exec(v, vs) {
            None => Some(None),
            Some((x, h)) => {
                acc.win32_exclude_orphan_events = Some(x);
                proof {
                    assert(acc@ =~= YamlView { win32_exclude_orphan_events: Some(x), ..a0 });
                }
                Some(Some(h))
            },
        }
    } else if chars_eq_str(key, "win32_keyboard_layout_cache_interval") {
        match parse_i64_field_exec(v, vs) {
            None => Some(None),
            Some((x, h)) => {
                acc.win32_keyboard_layout_cache_interval = Some(x);
                proof {
                    assert(acc@ =~= YamlView { win32_keyboard_layout_cache_interval: Some(x), ..a0 });
                }
                Some(Some(h))
            },
        }
    } else if chars_eq_str(key, "x11_use_xclip_backend") {
        match parse_bool_field_exec(v, vs) {
            None => Some(None),
            Some((x, h)) => {
                acc.x11_use_xclip_backend = Some(x);
                proof {
                    assert(acc@ =~= YamlView { x11_use_xclip_backend: Some(x), ..a0 });
                }
                Some(Some(h))
            },
        }
    } else if chars_eq_str(key, "x11_use_xdotool_backend") {
        match parse_bool_field_exec(v, vs) {
            None => Some(None),
            Some((x, h)) => {
                acc.x11_use_xdotool_backend = Some(x);
                proof {
                    assert(acc@ =~= YamlView { x11_use_xdotool_backend: Some(x), ..a0 });
                }
                Some(Some(h))
            },
        }
    } else {
        None
    }
}

#[verifier::rlimit(100)]
#[verifier::spinoff_prover]
fn dispatch4_exec(v: &Vec<char>, vs: usize, key: &Vec<char>, acc: &mut YAMLConfig) -> (r:
    Option<Option<usize>>)
    requires
        vs <= v@.len(),
    ensures
        match r {
            None => dispatch4(v@, vs as int, key@, old(acc)@) is None && final(acc)@ == old(
                acc,
            )@,
            Some(None) => dispatch4(v@, vs as int, key@, old(acc)@) == Some(
                None::<(YamlView, int)>,
            ),
            Some(Some(h)) => dispatch4(v@, vs as int, key@, old(acc)@) == Some(
                Some((final(acc)@, h as int)),
            ) && h <= v@.len(),
        },
{
    let ghost a0 = acc@;
    if chars_eq_str(key, "use_standard_includes") {
        match parse_bool_field_exec(v, vs) {
            None => Some(None),
            Some((x, h)) => {
                acc.use_standard_includes = Some(x);
                proof {
                    assert(acc@ =~= YamlView { use_standard_includes: Some(x), ..a0 });
                }
                Some(Some(h))
            },
        }
    } else if chars_eq_str(key, "includes") {
        match parse_list_field_exec(v, vs) {
            None => Some(None),
            Some((x, h)) => {
                acc.includes = Some(x);
                proof {
                    assert(acc@ =~= YamlView { includes: Some(x@.map_values(|s: String| s@)), ..a0 });
                }
                Some(Some(h))
            },
        }
    } else if chars_eq_str(key, "extra_includes") {
        match parse_list_field_exec(v, vs) {
            None => Some(None),
            Some((x, h)) => {
                acc.extra_includes = Some(x);
                proof {
                    assert(acc@ =~= YamlView { extra_includes: Some(x@.map_values(|s: String| s@)), ..a0 });
                }
                Some(Some(h))
            },
        }
    } else if chars_eq_str(key, "excludes") {
        match parse_list_field_exec(v, vs) {
            None => Some(None),
            Some((x, h)) => {
                acc.excludes = Some(x);
                proof {
                    assert(acc@ =~= YamlView { excludes: Some(x@.map_values(|s: String| s@)), ..a0 });
                }
                Some(Some(h))
            },
        }
    } else if chars_eq_str(key, "extra_excludes") {
        match parse_list_field_exec(v, vs) {
            None => Some(None),
            Some((x, h)) => {
                acc.extra_excludes = Some(x);
                proof {
                    assert(acc@ =~= YamlView { extra_excludes: Some(x@.map_values(|s: String| s@)), ..a0 });
                }
                Some(Some(h))
            },
        }
    } else if chars_eq_str(key, "filter_class") {
        match parse_str_field_exec(v, vs) {
            None => Some(None),
            Some((x, h)) => {
                acc.filter_class = Some(x);
                proof {
                    assert(acc@ =~= YamlView { filter_class: Some(x@), ..a0 });
                }
                Some(Some(h))
            },
        }
    } else if chars_eq_str(key, "filter_exec") {
        match parse_str_field_exec(v, vs) {
            None => Some(None),
            Some((x, h)) => {
                acc.filter_exec = Some(x);
                proof {
                    assert(acc@ =~= YamlView { filter_exec: Some(x@), ..a0 });
                }
                Some(Some(h))
            },
        }
    } else if chars_eq_str(key, "filter_os") {
        match parse_str_field_exec(v, vs) {
            None => Some(None),
            Some((x, h)) => {
                acc.filter_os = Some(x);
                proof {
                    assert(acc@ =~= YamlView { filter_os: Some(x@), ..a0 });
                }
                Some(Some(h))
            },
        }
    } else if chars_eq_str(key, "filter_title") {
        match parse_str_field_exec(v, vs) {
            None => Some(None),
            Some((x, h)) => {
                acc.filter_title = Some(x);
                proof {
                    assert(acc@ =~= YamlView { filter_title: Some(x@), ..a0 });
                }
                Some(Some(h))
            },
        }
    } else {
        None
    }
}

/// Parses a whole configuration document into the raw record, exactly
/// as `parse_config_doc` states; `None` when some line is malformed.
#[verifier::rlimit(100)]
#[verifier::spinoff_prover]
pub fn parse_config_text(s: &str) -> (r: Option<YAMLConfig>)
    ensures
        match r {
            Some(c) => parse_config_doc(s@) == Some(c@),
            None => parse_config_doc(s@) is None,
        },
{
    let v = str_to_chars(s);
    let ghost t = v@;
    let n = v.len();
    let mut acc = YAMLConfig::new();
    let mut cur = skip_noise_exec(&v, 0);
    loop
        invariant
            cur <= n,
            n == t.len(),
            v@ == t,
            t == s@,
            match parse_config_rec(t, cur as int, acc@) {
                Some(c) => parse_config_doc(t) == Some(c),
                None => parse_config_doc(t) is None,
            },
        decreases n - cur,
    {
        if cur >= n {
            return Some(acc);
        }
        let ce = colon_end_exec(&v, cur);
        if ce >= n || v[ce] != ':' {
            return None;
        }
        let mut key: Vec<char> = Vec::new();
        let mut kq: usize = cur;
        while kq < ce
            invariant
                cur <= kq <= ce <= v@.len(),
                v@ == t,
                key@ == t.subrange(cur as int, kq as int),
            decreases ce - kq,
        {
            key.push(v[kq]);
            assert(key@ =~= t.subrange(cur as int, kq + 1 as int));
            kq += 1;
        }
        let vs = skip_inline_exec(&v, ce + 1);
        let ghost a0 = acc@;
        let hopt: Option<usize> = match dispatch1_exec(&v, vs, &key, &mut acc) {
            Some(r) => r,
            None => match dispatch2_exec(&v, vs, &key, &mut acc) {
                Some(r) => r,
                None => match dispatch3_exec(&v, vs, &key, &mut acc) {
                    Some(r) => r,
                    None => match dispatch4_exec(&v, vs, &key, &mut acc) {
                        Some(r) => r,
                        None => {
                            let le = line_end_exec(&v, cur);
                            Some(if le >= n {
                                n
                            } else {
                                le + 1
                            })
                        },
                    },
                },
            },
        };
        let h = match hopt {
            Some(h) => h,
            None => {
                proof {
                    assert(dispatch_key(t, cur as int, vs as int, key@, a0) is None);
                    assert(parse_config_rec(t, cur as int, a0) is None);
                }
                return None;
            },
        };
        proof {
            assert(dispatch_key(t, cur as int, vs as int, key@, a0) == Some(
                (acc@, h as int),
            ));
            assert(parse_config_rec(t, cur as int, a0) == parse_config_cont(
                t,
                cur as int,
                h as int,
                acc@,
            ));
        }
        let nxt = skip_noise_exec(&v, h);
        if nxt <= cur {
            proof {
                assert(parse_config_cont(t, cur as int, h as int, acc@) is None);
            }
            return None;
        }
        cur = nxt;
    }
}

/// Writing the one `label` line and parsing it back yields exactly
/// that label, whatever the string holds: the pattern every quoted
/// string field follows.
#[verifier::rlimit(100)]
#[verifier::spinoff_prover]
pub proof fn lemma_str_line_round_trip(val: Seq<char>)
    ensures
        parse_config_doc(opt_str_line("label"@, Some(val))) == Some(
            YamlView { label: Some(val), ..yaml_all_unset() },
        ),
{
    reveal_strlit("label");
    reveal_strlit(": ");
    reveal_strlit("\n");
    let key = "label"@;
    let t = opt_str_line(key, Some(val));
    let q = quoted(val);
    assert(t =~= t.take(0) + key + (": "@ + q + "\n"@)) by {
        assert(t.take(0) =~= Seq::<char>::empty());
    }
    lemma_seg_at(t, 0, key, ": "@ + q + "\n"@);
    assert(t[0] == 'l');
    lemma_skip_noise_stops(t, 0);
    assert(t =~= t.take(5) + ": "@ + (q + "\n"@));
    lemma_seg_at(t, 5, ": "@, q + "\n"@);
    assert(t[5] == ':' && t[6] == ' ');
    lemma_colon_end_at(t, 0, 5);
    assert(t.subrange(0, 5) =~= key);
    assert(t =~= t.take(7) + q + "\n"@);
    lemma_seg_at(t, 7, q, "\n"@);
    assert(q[0] == '"');
    assert(t[7] == '"');
    assert(skip_inline(t, 7) == 7);
    assert(skip_inline(t, 6) == 7);
    lemma_parse_quoted(t, 7, val, "\n"@);
    let c = 7 + q.len() as int;
    assert(parse_value(t, 7) == Some((val, c)));
    assert(t =~= t.take(c) + "\n"@ + Seq::<char>::empty());
    lemma_seg_at(t, c, "\n"@, Seq::empty());
    assert(t[c] == '\n');
    assert(skip_inline(t, c) == c);
    assert(expect_eol(t, c) == Some(c + 1));
    assert(parse_str_field(t, 7) == Some((val, c + 1)));
    assert(c + 1 == t.len());
    let acc = yaml_all_unset();
    let acc2 = YamlView { label: Some(val), ..acc };
    assert(dispatch1(t, 7, key, acc) == Some(Some((acc2, c + 1))));
    assert(dispatch_key(t, 0, 7, key, acc) == Some((acc2, c + 1)));
    assert(skip_noise(t, c + 1, false) == c + 1);
    assert(parse_config_rec(t, c + 1, acc2) == Some(acc2));
    assert(parse_config_cont(t, 0, c + 1, acc2) == Some(acc2));
    assert(parse_config_rec(t, 0, acc) == Some(acc2));
}

/// Writing the one `clipboard_threshold` line and parsing it back
/// yields exactly that number: the pattern every numeric field
/// follows.
#[verifier::rlimit(100)]
#[verifier::spinoff_prover]
pub proof fn lemma_u64_line_round_trip(val: u64)
    ensures
        parse_config_doc(opt_u64_line("clipboard_threshold"@, Some(val))) == Some(
            YamlView { clipboard_threshold: Some(val), ..yaml_all_unset() },
        ),
{
    reveal_strlit("label");
    reveal_strlit("backend");
    reveal_strlit("enable");
    reveal_strlit("clipboard_threshold");
    reveal_strlit(": ");
    reveal_strlit("\n");
    let key = "clipboard_threshold"@;
    let tok = dec_digits(val as nat);
    crate::num::lemma_dec_digits_val(val as nat);
    let t = opt_u64_line(key, Some(val));
    assert(t =~= t.take(0) + key + (": "@ + tok + "\n"@)) by {
        assert(t.take(0) =~= Seq::<char>::empty());
    }
    lemma_seg_at(t, 0, key, ": "@ + tok + "\n"@);
    assert(t[0] == 'c');
    lemma_skip_noise_stops(t, 0);
    assert(t =~= t.take(19) + ": "@ + (tok + "\n"@));
    lemma_seg_at(t, 19, ": "@, tok + "\n"@);
    assert(t[19] == ':' && t[20] == ' ');
    lemma_colon_end_at(t, 0, 19);
    assert(t.subrange(0, 19) =~= key);
    assert(t =~= t.take(21) + tok + "\n"@);
    lemma_seg_at(t, 21, tok, "\n"@);
    assert(crate::num::is_digit(tok[0]));
    assert(t[21] == tok[0]);
    assert(skip_inline(t, 21) == 21);
    assert(skip_inline(t, 20) == 21);
    let c = 21 + tok.len() as int;
    assert(t =~= t.take(c) + "\n"@ + Seq::<char>::empty());
    lemma_seg_at(t, c, "\n"@, Seq::empty());
    assert(t[c] == '\n');
    assert(line_end(t, 21) == c) by {
        assert(forall|m: int| 21 <= m < c ==> t[m] == tok[m - 21]);
        assert(forall|m: int|
            21 <= m < c ==> crate::num::is_digit(#[trigger] t[m]) && t[m] != '\n');
        crate::scan::lemma_line_end_at(t, 21, c);
    }
    assert(parse_value(t, 21) == Some((tok, c))) by {
        assert(t.subrange(21, c) =~= tok);
        assert(!is_inline_space(tok.last())) by {
            assert(crate::num::is_digit(tok.last()));
        }
        assert(rtrim_inline(tok) == tok);
    }
    assert(skip_inline(t, c) == c);
    assert(expect_eol(t, c) == Some(c + 1));
    assert(parse_u64_str(tok) == Some(val));
    assert(parse_u64_field(t, 21) == Some((val, c + 1)));
    assert(c + 1 == t.len());
    let acc = yaml_all_unset();
    let acc2 = YamlView { clipboard_threshold: Some(val), ..acc };
    assert(key != "label"@ && key != "backend"@ && key != "enable"@);
    assert(dispatch1(t, 21, key, acc) == Some(Some((acc2, c + 1))));
    assert(dispatch_key(t, 0, 21, key, acc) == Some((acc2, c + 1)));
    assert(skip_noise(t, c + 1, false) == c + 1);
    assert(parse_config_rec(t, c + 1, acc2) == Some(acc2));
    assert(parse_config_cont(t, 0, c + 1, acc2) == Some(acc2));
    assert(parse_config_rec(t, 0, acc) == Some(acc2));
}

} // verus!
