//! Directory-layout and file-name rules: what makes a data directory
//! valid, which match-file names are acceptable, how the probe paths
//! and match-file paths are built, and how `.yml` stems are read off
//! file names.

use vstd::prelude::*;
use crate::text::{push_str_chars, chars_to_string, str_to_chars};

verus! {

/// What the filesystem reports about a candidate data directory.
#[derive(Clone, Copy, Debug)]
pub struct DirProbe {
    pub config_is_dir: bool,
    pub match_is_dir: bool,
    pub default_yml_is_file: bool,
}

/// A data directory is valid exactly when `config/` and `match/` are
/// directories and `config/default.yml` is a regular file, whatever
/// else the directory holds.
pub open spec fn probe_valid(p: DirProbe) -> bool {
    p.config_is_dir && p.match_is_dir && p.default_yml_is_file
}

/// The directory validator's decision over the three probe results.
pub fn valid_espanso_dir(probe: DirProbe) -> (r: bool)
    ensures
        r == probe_valid(probe),
{
    probe.config_is_dir && probe.match_is_dir && probe.default_yml_is_file
}

/// The path of the `config` folder under a data directory.
pub fn config_dir_path(dir: &str) -> (r: String)
    ensures
        r@ == dir@ + "/config"@,
{
    let mut out = str_to_chars(dir);
    push_str_chars(&mut out, "/config");
    chars_to_string(&out)
}

/// The path of the `match` folder under a data directory.
pub fn match_dir_path(dir: &str) -> (r: String)
    ensures
        r@ == dir@ + "/match"@,
{
    let mut out = str_to_chars(dir);
    push_str_chars(&mut out, "/match");
    chars_to_string(&out)
}

/// The path of the one configuration file this editor edits.
pub fn config_file_path(dir: &str) -> (r: String)
    ensures
        r@ == dir@ + "/config/default.yml"@,
{
    let mut out = str_to_chars(dir);
    push_str_chars(&mut out, "/config/default.yml");
    chars_to_string(&out)
}

/// The path of the match file with the given stem.
pub fn match_file_path(dir: &str, stem: &str) -> (r: String)
    ensures
        r@ == dir@ + "/match/"@ + stem@ + ".yml"@,
{
    let mut out = str_to_chars(dir);
    push_str_chars(&mut out, "/match/");
    push_str_chars(&mut out, stem);
    push_str_chars(&mut out, ".yml");
    chars_to_string(&out)
}

/// A character a match-file name may hold: an ASCII word character,
/// hyphen, period, or space.  In particular no path separator.
pub open spec fn is_name_char(c: char) -> bool {
    ||| ('a' <= c && c <= 'z')
    ||| ('A' <= c && c <= 'Z')
    ||| ('0' <= c && c <= '9')
    ||| c == '_'
    ||| c == '-'
    ||| c == '.'
    ||| c == ' '
}

/// A candidate file name is valid exactly when it is nonempty and
/// every character is a name character.
pub open spec fn name_valid(s: Seq<char>) -> bool {
    s.len() > 0 && forall|i: int| 0 <= i < s.len() ==> is_name_char(#[trigger] s[i])
}

/// The file-name rule applied before any rename or create.
pub fn is_valid_file_name(file_name: &str) -> (r: bool)
    ensures
        r == name_valid(file_name@),
{
    let n = file_name.unicode_len();
    if n == 0 {
        return false;
    }
    let mut i: usize = 0;
    while i < n
        invariant
            i <= n,
            n == file_name@.len(),
            forall|j: int| 0 <= j < i ==> is_name_char(#[trigger] file_name@[j]),
        decreases n - i,
    {
        let c = file_name.get_char(i);
        let ok = ('a' <= c && c <= 'z') || ('A' <= c && c <= 'Z') || ('0' <= c && c <= '9') || c
            == '_' || c == '-' || c == '.' || c == ' ';
        if !ok {
            assert(!is_name_char(file_name@[i as int]));
            return false;
        }
        i += 1;
    }
    true
}

/// A name holding a path separator is never valid.
pub proof fn lemma_separator_rejected(s: Seq<char>)
    requires
        exists|i: int| 0 <= i < s.len() && (s[i] == '/' || s[i] == '\\'),
    ensures
        !name_valid(s),
{
    let i = choose|i: int| 0 <= i < s.len() && (s[i] == '/' || s[i] == '\\');
    assert(!is_name_char(s[i]));
}

/// The stem a `.yml` file contributes to the match-file list: the
/// name without its final `.yml`, provided something precedes it.
pub open spec fn yml_stem_of(name: Seq<char>) -> Option<Seq<char>> {
    if name.len() > 4 && name.subrange(name.len() - 4, name.len() as int) == ".yml"@ {
        Some(name.subrange(0, name.len() - 4))
    } else {
        None
    }
}

/// Extracts the stem of a `.yml` file name, or nothing for any other
/// name (including a bare `.yml`, which has no stem).
pub fn yml_stem(name: &str) -> (r: Option<String>)
    ensures
        match r {
            Some(stem) => yml_stem_of(name@) == Some(stem@),
            None => yml_stem_of(name@) is None,
        },
{
    let v = str_to_chars(name);
    let n = v.len();
    proof {
        reveal_strlit(".yml");
    }
    if n <= 4 {
        return None;
    }
    if !(v[n - 4] == '.' && v[n - 3] == 'y' && v[n - 2] == 'm' && v[n - 1] == 'l') {
        proof {
            assert(name@.subrange(name@.len() - 4, name@.len() as int) != ".yml"@) by {
                if name@.subrange(name@.len() - 4, name@.len() as int) == ".yml"@ {
                    assert(name@.subrange(name@.len() - 4, name@.len() as int)[0] == '.'
                        && name@.subrange(name@.len() - 4, name@.len() as int)[1] == 'y'
                        && name@.subrange(name@.len() - 4, name@.len() as int)[2] == 'm'
                        && name@.subrange(name@.len() - 4, name@.len() as int)[3] == 'l');
                }
            }
        }
        return None;
    }
    let mut out: Vec<char> = Vec::new();
    let mut i: usize = 0;
    while i < n - 4
        invariant
            i <= n - 4,
            n == v@.len(),
            v@ == name@,
            n > 4,
            out@ == name@.subrange(0, i as int),
        decreases n - 4 - i,
    {
        out.push(v[i]);
        assert(out@ =~= name@.subrange(0, i + 1 as int));
        i += 1;
    }
    proof {
        assert(name@.subrange(name@.len() - 4, name@.len() as int) =~= ".yml"@);
    }
    Some(chars_to_string(&out))
}

/// The stems of all `.yml` files among the walked file names, in walk
/// order; every other name contributes nothing.
pub fn collect_yml_stems(names: &Vec<String>) -> (r: Vec<String>)
    ensures
        r@.map_values(|s: String| s@) == names@.map_values(|s: String| yml_stem_of(s@)).filter(
            |o: Option<Seq<char>>| o is Some,
        ).map_values(|o: Option<Seq<char>>| o->0),
{
    let n = names.len();
    let mut out: Vec<String> = Vec::new();
    let mut i: usize = 0;
    while i < n
        invariant
            i <= n,
            n == names@.len(),
            out@.map_values(|s: String| s@) =~= names@.map_values(
                |s: String| yml_stem_of(s@),
            ).subrange(0, i as int).filter(|o: Option<Seq<char>>| o is Some).map_values(
                |o: Option<Seq<char>>| o->0,
            ),
        decreases n - i,
    {
        let ghost full = names@.map_values(|s: String| yml_stem_of(s@));
        let ghost prefix = full.subrange(0, i as int);
        let ghost pred = |o: Option<Seq<char>>| o is Some;
        let ghost out0 = out@.map_values(|s: String| s@);
        match yml_stem(names[i].as_str()) {
            Some(stem) => {
                let ghost stemv = stem@;
                out.push(stem);
                proof {
                    assert(out@.map_values(|s: String| s@) =~= out0.push(stemv));
                }
            },
            None => {
            },
        }
        proof {
            let g = |o: Option<Seq<char>>| o->0;
            let pushed = prefix.push(full[i as int]);
            assert(full.subrange(0, i + 1 as int) =~= pushed);
            reveal(Seq::filter);
            assert(pushed.drop_last() =~= prefix);
            assert(pushed.last() == full[i as int]);
            if pred(full[i as int]) {
                assert(pushed.filter(pred) =~= prefix.filter(pred).push(full[i as int]));
                assert(pushed.filter(pred).map_values(g) =~= prefix.filter(pred).map_values(
                    g,
                ).push(full[i as int]->0));
                assert(out@.map_values(|s: String| s@) =~= out0.push(full[i as int]->0));
            } else {
                assert(pushed.filter(pred) =~= prefix.filter(pred));
                assert(out@.map_values(|s: String| s@) == out0);
            }
        }
        i += 1;
    }
    proof {
        let full = names@.map_values(|s: String| yml_stem_of(s@));
        assert(full.subrange(0, n as int) =~= full);
    }
    out
}

/// The saved location with every trailing slash removed, as the
/// settings form normalises it.
pub open spec fn trim_slashes(s: Seq<char>) -> Seq<char>
    decreases s.len(),
{
    if s.len() > 0 && s.last() == '/' {
        trim_slashes(s.drop_last())
    } else {
        s
    }
}

pub fn trim_trailing_slashes(s: &str) -> (r: String)
    ensures
        r@ == trim_slashes(s@),
{
    let mut v = str_to_chars(s);
    while v.len() > 0 && v[v.len() - 1] == '/'
        invariant
            trim_slashes(v@) == trim_slashes(s@),
        decreases v@.len(),
    {
        let _ = v.pop();
    }
    proof {
        assert(trim_slashes(v@) == v@);
    }
    chars_to_string(&v)
}

/// A proposed new-file name with any number of final `.yml` endings
/// removed, as the new-file form normalises it before appending its
/// own `.yml`.
pub open spec fn strip_yml_suffixes(s: Seq<char>) -> Seq<char>
    decreases s.len(),
{
    if s.len() >= 4 && s.subrange(s.len() - 4, s.len() as int) == ".yml"@ {
        strip_yml_suffixes(s.subrange(0, s.len() - 4))
    } else {
        s
    }
}

pub fn strip_yml_suffix(s: &str) -> (r: String)
    ensures
        r@ == strip_yml_suffixes(s@),
{
    let mut v = str_to_chars(s);
    proof {
        reveal_strlit(".yml");
    }
    loop
        invariant
            strip_yml_suffixes(v@) == strip_yml_suffixes(s@),
        decreases v@.len(),
    {
        let n = v.len();
        if n >= 4 && v[n - 4] == '.' && v[n - 3] == 'y' && v[n - 2] == 'm' && v[n - 1] == 'l' {
            let ghost before = v@;
            let _ = v.pop();
            let _ = v.pop();
            let _ = v.pop();
            let _ = v.pop();
            proof {
                reveal_strlit(".yml");
                assert(before.subrange(before.len() - 4, before.len() as int) =~= ".yml"@);
                assert(v@ =~= before.subrange(0, before.len() - 4));
            }
        } else {
            proof {
                reveal_strlit(".yml");
                if v@.len() >= 4 && v@.subrange(v@.len() - 4, v@.len() as int) == ".yml"@ {
                    assert(v@.subrange(v@.len() - 4, v@.len() as int)[0] == '.' && v@.subrange(
                        v@.len() - 4,
                        v@.len() as int,
                    )[1] == 'y' && v@.subrange(v@.len() - 4, v@.len() as int)[2] == 'm'
                        && v@.subrange(v@.len() - 4, v@.len() as int)[3] == 'l');
                }
                assert(strip_yml_suffixes(v@) == v@);
            }
            return chars_to_string(&v);
        }
    }
}

/// Whether a rename may proceed: the proposed stem must differ from
/// the current one and be a valid file name.
pub fn rename_allowed(current: &str, proposed: &str) -> (r: bool)
    ensures
        r == (current@ != proposed@ && name_valid(proposed@)),
{
    let differs = !crate::text::chars_eq_str(&str_to_chars(current), proposed);
    differs && is_valid_file_name(proposed)
}

} // verus!
