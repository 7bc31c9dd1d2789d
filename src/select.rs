//! Choosing the channel a session runs over.
//!
//! An engine that loads this code as a script announces the pipe it set up
//! through two configuration keys naming file descriptors or named pipes. That inherited
//! pipe wins over a target to spawn an engine for, since it cannot be made
//! again. The choice reads a snapshot of the configuration, never live state.
use vstd::prelude::*;
use vstd::utf8::encode_utf8;

use crate::error::R2PipeError;

verus! {

/// The channel behind a session.
#[derive(Debug, PartialEq, Eq)]
pub enum ChannelSpec {
    /// Spawn an engine for `target` and talk over its standard streams.
    Spawned { target: String },
    /// Talk over descriptors that a running engine handed down: read
    /// responses from `input`, write requests to `output`.
    Inherited { input: i32, output: i32 },
    /// Talk over named pipes that a running engine set up: read responses
    /// from the pipe at `input`, write requests to the pipe at `output`.
    NamedPipes { input: String, output: String },
}

/// The key that names the descriptor responses are read from.
pub open spec fn input_key() -> Seq<char> {
    "R2PIPE_IN"@
}

/// The key that names the descriptor requests are written to.
pub open spec fn output_key() -> Seq<char> {
    "R2PIPE_OUT"@
}

/// The value of the first entry of `cfg` under `key`.
pub open spec fn lookup(cfg: Seq<(String, String)>, key: Seq<char>) -> Option<String>
    decreases cfg.len(),
{
    if cfg.len() == 0 {
        None
    } else if cfg[0].0@ == key {
        Some(cfg[0].1)
    } else {
        lookup(cfg.drop_first(), key)
    }
}

/// An ASCII decimal digit.
pub open spec fn is_digit(b: u8) -> bool {
    48 <= b <= 57
}

/// The number that the digits `s` write in base ten.
pub open spec fn decimal_value(s: Seq<u8>) -> int
    decreases s.len(),
{
    if s.len() == 0 {
        0
    } else {
        decimal_value(s.drop_last()) * 10 + (s.last() - 48)
    }
}

/// The descriptor that the UTF-8 bytes `s` name: one or more decimal digits
/// whose value fits a descriptor.
pub open spec fn descriptor_of(s: Seq<u8>) -> Option<i32> {
    if s.len() > 0 && (forall|j: int| 0 <= j < s.len() ==> is_digit(#[trigger] s[j]))
        && decimal_value(s) <= i32::MAX {
        Some(decimal_value(s) as i32)
    } else {
        None
    }
}

/// The UTF-8 bytes `s` name a pipe: an absolute path, starting with `/`
/// or with `\`.
pub open spec fn is_pipe_path(s: Seq<u8>) -> bool {
    s.len() > 0 && (s[0] == 47u8 || s[0] == 92u8)
}

/// The channel of an inherited session, when `cfg` announces a valid one:
/// both keys present, and both values descriptors, or else both pipe paths.
pub open spec fn inherited_channel(cfg: Seq<(String, String)>) -> Option<ChannelSpec> {
    match (lookup(cfg, input_key()), lookup(cfg, output_key())) {
        (Some(a), Some(b)) => match (
            descriptor_of(encode_utf8(a@)),
            descriptor_of(encode_utf8(b@)),
        ) {
            (Some(i), Some(o)) => Some(ChannelSpec::Inherited { input: i, output: o }),
            _ => if is_pipe_path(encode_utf8(a@)) && is_pipe_path(encode_utf8(b@)) {
                Some(ChannelSpec::NamedPipes { input: a, output: b })
            } else {
                None
            },
        },
        _ => None,
    }
}

/// The channel chosen from an optional target and a configuration snapshot.
pub open spec fn selected(path: Option<String>, cfg: Seq<(String, String)>) -> Option<ChannelSpec> {
    match inherited_channel(cfg) {
        Some(c) => Some(c),
        None => match path {
            Some(p) => Some(ChannelSpec::Spawned { target: p }),
            None => None,
        },
    }
}

/// The outcome of choosing a channel.
pub open spec fn selection(path: Option<String>, cfg: Seq<(String, String)>) -> Result<
    ChannelSpec,
    R2PipeError,
> {
    match selected(path, cfg) {
        Some(c) => Ok(c),
        None => Err(R2PipeError::Configuration),
    }
}

/// An announced inherited session is chosen when no target is given; a
/// target is spawned for when no valid session is announced; with neither,
/// the choice fails with `Configuration`.
pub proof fn lemma_selection_cases(path: Option<String>, cfg: Seq<(String, String)>)
    ensures
        path is None && inherited_channel(cfg) is Some ==> selection(path, cfg) == Ok::<
            ChannelSpec,
            R2PipeError,
        >(inherited_channel(cfg).unwrap()),
        inherited_channel(cfg) matches Some(c) ==> !(c is Spawned),
        path is Some && inherited_channel(cfg) is None ==> (selection(path, cfg) matches Ok(
            ChannelSpec::Spawned { target },
        ) && path == Some(target)),
        path is None && inherited_channel(cfg) is None ==> selection(path, cfg) == Err::<
            ChannelSpec,
            R2PipeError,
        >(R2PipeError::Configuration),
{
}

/// The value of the first entry of `cfg` whose key is `key`.
pub fn lookup_value<'a>(cfg: &'a Vec<(String, String)>, key: &String) -> (r: Option<&'a String>)
    ensures
        match lookup(cfg@, key@) {
            Some(v) => r matches Some(s) && *s == v,
            None => r is None,
        },
{
    let mut i: usize = 0;
    assert(cfg@.skip(0) =~= cfg@);
    while i < cfg.len()
        invariant
            i <= cfg@.len(),
            lookup(cfg@, key@) == lookup(cfg@.skip(i as int), key@),
        decreases cfg@.len() - i,
    {
        proof {
            assert(cfg@.skip(i as int).drop_first() =~= cfg@.skip(i as int + 1));
        }
        if cfg[i].0 == *key {
            return Some(&cfg[i].1);
        }
        i = i + 1;
    }
    None
}

/// The descriptor that the text `s` names, if it is one.
pub fn parse_descriptor(s: &str) -> (r: Option<i32>)
    ensures
        r == descriptor_of(encode_utf8(s@)),
{
    let b = s.as_bytes();
    if b.len() == 0 {
        return None;
    }
    let mut value: u64 = 0;
    let mut too_large = false;
    let mut i: usize = 0;
    while i < b.len()
        invariant
            i <= b@.len(),
            b@ == encode_utf8(s@),
            forall|j: int| 0 <= j < i ==> is_digit(#[trigger] b@[j]),
            too_large ==> decimal_value(b@.take(i as int)) > i32::MAX,
            !too_large ==> value == decimal_value(b@.take(i as int)) && value <= i32::MAX,
        decreases b@.len() - i,
    {
        let d = b[i];
        if d < 48 || d > 57 {
            assert(!is_digit(b@[i as int]));
            return None;
        }
        proof {
            assert(b@.take(i as int + 1).drop_last() =~= b@.take(i as int));
        }
        if !too_large {
            value = value * 10 + (d - 48) as u64;
            if value > 2147483647 {
                too_large = true;
            }
        }
        i = i + 1;
    }
    proof {
        assert(b@.take(i as int) =~= b@);
    }
    if too_large {
        None
    } else {
        Some(value as i32)
    }
}

/// Choose the channel: an inherited session announced by `cfg`, else a
/// spawned engine for `path`, else `Configuration`.
pub fn select(path: Option<String>, cfg: &Vec<(String, String)>) -> (r: Result<
    ChannelSpec,
    R2PipeError,
>)
    ensures
        r == selection(path, cfg@),
{
    if let Some(c) = inherited_session(cfg) {
        return Ok(c);
    }
    match path {
        Some(p) => Ok(ChannelSpec::Spawned { target: p }),
        None => Err(R2PipeError::Configuration),
    }
}

/// Whether the UTF-8 text `s` names a pipe.
pub fn is_pipe_path_text(s: &str) -> (r: bool)
    ensures
        r == is_pipe_path(encode_utf8(s@)),
{
    let b = s.as_bytes();
    b.len() > 0 && (b[0] == 47 || b[0] == 92)
}

/// The channel that `cfg` announces for an inherited session.
pub fn inherited_session(cfg: &Vec<(String, String)>) -> (r: Option<ChannelSpec>)
    ensures
        r == inherited_channel(cfg@),
{
    let in_key = "R2PIPE_IN".to_owned();
    let out_key = "R2PIPE_OUT".to_owned();
    proof {
        reveal_strlit("R2PIPE_IN");
        reveal_strlit("R2PIPE_OUT");
    }
    let a = lookup_value(cfg, &in_key);
    let b = lookup_value(cfg, &out_key);
    match (a, b) {
        (Some(a), Some(b)) => match (parse_descriptor(a.as_str()), parse_descriptor(b.as_str())) {
            (Some(i), Some(o)) => Some(ChannelSpec::Inherited { input: i, output: o }),
            _ => if is_pipe_path_text(a.as_str()) && is_pipe_path_text(b.as_str()) {
                Some(ChannelSpec::NamedPipes { input: a.clone(), output: b.clone() })
            } else {
                None
            },
        },
        _ => None,
    }
}

} // verus!
