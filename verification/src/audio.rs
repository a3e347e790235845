//! Audio device vocabulary: what a device listing reports and how a native
//! PCM stream is handed to FFmpeg.

use vstd::prelude::*;
use std::collections::VecDeque;
use crate::text::{
    chars_of, decimal, extend_range, extend_str, find_from, find_pattern, lemma_find_from_bounds,
    matches_at,
    push_decimal, same_chars, string_from,
};

verus! {

#[derive(Debug)]
pub enum AudioError {
    Device(String),
    NoHost,
    Transport(String),
}

/// The message of an audio error.
pub open spec fn audio_error_text(e: AudioError) -> Seq<char> {
    match e {
        AudioError::Device(m) => "audio device error: "@ + m@,
        AudioError::NoHost => "no audio host available"@,
        AudioError::Transport(m) => "audio transport error: "@ + m@,
    }
}

impl AudioError {
    /// The error's message.
    pub fn message(&self) -> (r: String)
        ensures
            r@ == audio_error_text(*self),
    {
        let mut out: Vec<char>;
        match self {
            AudioError::Device(m) => {
                out = chars_of("audio device error: ");
                extend_str(&mut out, m.as_str());
            },
            AudioError::NoHost => {
                out = chars_of("no audio host available");
            },
            AudioError::Transport(m) => {
                out = chars_of("audio transport error: ");
                extend_str(&mut out, m.as_str());
            },
        }
        string_from(out.as_slice())
    }
}

#[derive(Debug, Clone, Copy, PartialEq, Eq, Structural)]
pub enum AudioDeviceKind {
    Input,
    Output,
    Loopback,
}

#[derive(Debug)]
pub struct AudioDeviceInfo {
    pub id: String,
    pub name: String,
    pub kind: AudioDeviceKind,
    pub is_default: bool,
}

/// One native PCM stream exposed to FFmpeg over localhost TCP.
#[derive(Debug)]
pub struct PcmInputSpec {
    pub kind: AudioDeviceKind,
    pub url: String,
    pub sample_rate: u32,
    pub channels: u16,
}

/// A device as plain values: id, name, kind, default.
pub open spec fn device_view(d: AudioDeviceInfo) -> (Seq<char>, Seq<char>, AudioDeviceKind, bool) {
    (d.id@, d.name@, d.kind, d.is_default)
}

/// The name a listing shows for device `idx`: its own, or `Input <idx>` /
/// `Output <idx>` when it could not be read.
pub open spec fn shown_name(kind: AudioDeviceKind, idx: int, name: Option<Seq<char>>) -> Seq<char> {
    match name {
        Some(n) => n,
        None => (if kind == AudioDeviceKind::Input { "Input "@ } else { "Output "@ }) + decimal(
            idx as nat,
        ),
    }
}

/// Device `idx` of its kind as the listing reports it: id `in:<idx>:<name>`
/// or `out:<idx>:<name>`, the default when its name is the default
/// device's.
pub open spec fn listed_device(
    kind: AudioDeviceKind,
    idx: int,
    name: Option<Seq<char>>,
    default_name: Option<Seq<char>>,
) -> (Seq<char>, Seq<char>, AudioDeviceKind, bool) {
    let n = shown_name(kind, idx, name);
    (
        (if kind == AudioDeviceKind::Input { "in:"@ } else { "out:"@ }) + decimal(idx as nat) + seq![':'] + n,
        n,
        kind,
        default_name == Some(n),
    )
}

pub open spec fn opt_view(o: Option<String>) -> Option<Seq<char>> {
    match o {
        Some(s) => Some(s@),
        None => None,
    }
}

pub open spec fn opt_str_view(o: Option<&str>) -> Option<Seq<char>> {
    match o {
        Some(s) => Some(s@),
        None => None,
    }
}

/// The devices of one kind, in enumeration order.
pub open spec fn listed_kind(
    kind: AudioDeviceKind,
    names: Seq<Option<String>>,
    default_name: Option<Seq<char>>,
) -> Seq<(Seq<char>, Seq<char>, AudioDeviceKind, bool)> {
    Seq::new(names.len(), |i: int| listed_device(kind, i, opt_view(names[i]), default_name))
}

fn describe(kind: AudioDeviceKind, idx: usize, name: &Option<String>, default_name: Option<&str>) -> (r: AudioDeviceInfo)
    requires
        kind != AudioDeviceKind::Loopback,
    ensures
        device_view(r) == listed_device(kind, idx as int, opt_view(*name), opt_str_view(default_name)),
{
    let mut shown: Vec<char>;
    match name {
        Some(n) => {
            shown = chars_of(n.as_str());
        },
        None => {
            shown = if kind == AudioDeviceKind::Input { chars_of("Input ") } else { chars_of("Output ") };
            push_decimal(&mut shown, idx as u64);
        },
    }
    let mut id: Vec<char> = if kind == AudioDeviceKind::Input { chars_of("in:") } else { chars_of("out:") };
    push_decimal(&mut id, idx as u64);
    id.push(':');
    crate::text::extend_chars(&mut id, shown.as_slice());
    let is_default = match default_name {
        Some(d) => {
            let dc = chars_of(d);
            same_chars(dc.as_slice(), shown.as_slice())
        },
        None => false,
    };
    proof {
        assert(shown@ == shown_name(kind, idx as int, opt_view(*name)));
        assert(id@ =~= (if kind == AudioDeviceKind::Input { "in:"@ } else { "out:"@ }) + decimal(idx as nat) + seq![':'] + shown@);
    }
    AudioDeviceInfo {
        id: string_from(id.as_slice()),
        name: string_from(shown.as_slice()),
        kind,
        is_default,
    }
}

fn push_kind(
    out: &mut Vec<AudioDeviceInfo>,
    kind: AudioDeviceKind,
    names: &[Option<String>],
    default_name: Option<&str>,
)
    requires
        kind != AudioDeviceKind::Loopback,
    ensures
        final(out)@.map_values(|d: AudioDeviceInfo| device_view(d)) == old(out)@.map_values(
            |d: AudioDeviceInfo| device_view(d),
        ) + listed_kind(kind, names@, opt_str_view(default_name)),
{
    let ghost start = out@.map_values(|d: AudioDeviceInfo| device_view(d));
    let ghost want = listed_kind(kind, names@, opt_str_view(default_name));
    let mut i: usize = 0;
    while i < names.len()
        invariant
            kind != AudioDeviceKind::Loopback,
            i <= names@.len(),
            want == listed_kind(kind, names@, opt_str_view(default_name)),
            out@.map_values(|d: AudioDeviceInfo| device_view(d)) == start + want.take(i as int),
        decreases names@.len() - i,
    {
        let d = describe(kind, i, &names[i], default_name);
        let ghost before = out@.map_values(|d: AudioDeviceInfo| device_view(d));
        let ghost dv = device_view(d);
        out.push(d);
        proof {
            assert(out@.map_values(|d: AudioDeviceInfo| device_view(d)) == before.push(dv));
            assert(dv == want[i as int]);
            assert(start + want.take(i + 1) =~= (start + want.take(i as int)).push(want[i as int]));
        }
        i = i + 1;
    }
    proof {
        assert(want.take(names@.len() as int) == want);
    }
}

/// Describe the devices a host enumerated: inputs first, then outputs,
/// each in enumeration order, given each device's name (`None` when it
/// could not be read) and the default device's name. A host with no device
/// at all has no usable audio.
pub fn list_devices(
    inputs: &[Option<String>],
    default_input: Option<&str>,
    outputs: &[Option<String>],
    default_output: Option<&str>,
) -> (r: Result<Vec<AudioDeviceInfo>, AudioError>)
    ensures
        inputs@.len() + outputs@.len() == 0 ==> r matches Err(AudioError::NoHost),
        inputs@.len() + outputs@.len() > 0 ==> (r matches Ok(v) && v@.map_values(
            |d: AudioDeviceInfo| device_view(d),
        ) == listed_kind(AudioDeviceKind::Input, inputs@, opt_str_view(default_input))
            + listed_kind(AudioDeviceKind::Output, outputs@, opt_str_view(default_output))),
{
    let mut devices: Vec<AudioDeviceInfo> = Vec::new();
    proof {
        assert(devices@.map_values(|d: AudioDeviceInfo| device_view(d)) =~= Seq::empty());
    }
    push_kind(&mut devices, AudioDeviceKind::Input, inputs, default_input);
    push_kind(&mut devices, AudioDeviceKind::Output, outputs, default_output);
    proof {
        let a = listed_kind(AudioDeviceKind::Input, inputs@, opt_str_view(default_input));
        let b = listed_kind(AudioDeviceKind::Output, outputs@, opt_str_view(default_output));
        assert(devices@.map_values(|d: AudioDeviceInfo| device_view(d)).len() == devices@.len());
        assert(devices@.len() == a.len() + b.len());
    }
    if devices.len() == 0 {
        return Err(AudioError::NoHost);
    }
    proof {
        let a = listed_kind(AudioDeviceKind::Input, inputs@, opt_str_view(default_input));
        let b = listed_kind(AudioDeviceKind::Output, outputs@, opt_str_view(default_output));
        assert(Seq::<(Seq<char>, Seq<char>, AudioDeviceKind, bool)>::empty() + a + b =~= a + b);
    }
    Ok(devices)
}

/// Which way a WASAPI endpoint is captured.
#[derive(Debug, Clone, Copy, PartialEq, Eq, Structural)]
pub enum EndpointDirection {
    /// A microphone.
    Capture,
    /// What a render endpoint plays, captured as loopback.
    RenderLoopback,
}

impl EndpointDirection {
    /// The kind of device the direction records.
    pub fn kind(self) -> (r: AudioDeviceKind)
        ensures
            r == (if self == EndpointDirection::Capture {
                AudioDeviceKind::Input
            } else {
                AudioDeviceKind::Loopback
            }),
    {
        match self {
            EndpointDirection::Capture => AudioDeviceKind::Input,
            EndpointDirection::RenderLoopback => AudioDeviceKind::Loopback,
        }
    }
}

/// The text before the first colon of `s` (all of it without one), and
/// what follows that colon, if there is one.
pub open spec fn split_colon(s: Seq<char>) -> (Seq<char>, Option<Seq<char>>) {
    match find_from(s, seq![':'], 0) {
        Some(i) => (s.take(i), Some(s.skip(i + 1))),
        None => (s, None),
    }
}

/// A stored device id `wasapi:<capture|render>:<endpoint id>` split into
/// its direction and endpoint id (which may hold colons, but is not
/// empty). Another first part is a device of an older release; anything
/// else is invalid.
pub open spec fn parsed_device_id(stored: Seq<char>) -> Result<(EndpointDirection, Seq<char>), Seq<char>> {
    let (first, rest) = split_colon(stored);
    if first != "wasapi"@ {
        Err("legacy audio device is no longer valid: "@ + stored)
    } else {
        match rest {
            None => Err("invalid WASAPI device id: "@ + stored),
            Some(r) => {
                let (second, tail) = split_colon(r);
                let dir = if second == "capture"@ {
                    Some(EndpointDirection::Capture)
                } else if second == "render"@ {
                    Some(EndpointDirection::RenderLoopback)
                } else {
                    None
                };
                match (dir, tail) {
                    (Some(d), Some(id)) => if id.len() > 0 {
                        Ok((d, id))
                    } else {
                        Err("invalid WASAPI device id: "@ + stored)
                    },
                    _ => Err("invalid WASAPI device id: "@ + stored),
                }
            },
        }
    }
}

fn split_colon_exec(s: &[char]) -> (r: (Vec<char>, Option<Vec<char>>))
    ensures
        r.0@ == split_colon(s@).0,
        match r.1 {
            Some(t) => split_colon(s@).1 == Some(t@),
            None => split_colon(s@).1 is None,
        },
{
    let mut colon: Vec<char> = Vec::new();
    colon.push(':');
    proof {
        assert(colon@ =~= seq![':']);
        lemma_find_from_bounds(s@, seq![':'], 0);
    }
    match find_pattern(s, colon.as_slice(), 0) {
        Some(i) => {
            proof {
                assert(find_from(s@, seq![':'], 0) == Some(i as int));
                assert(matches_at(s@, seq![':'], i as int));
                assert(i + 1 <= s@.len());
                assert(s@.len() == s.len());
            }
            let mut head: Vec<char> = Vec::new();
            extend_range(&mut head, s, 0, i);
            let mut tail: Vec<char> = Vec::new();
            extend_range(&mut tail, s, i + 1, s.len());
            proof {
                assert(head@ =~= s@.take(i as int));
                assert(tail@ =~= s@.skip(i + 1));
            }
            (head, Some(tail))
        },
        None => {
            let mut all: Vec<char> = Vec::new();
            extend_range(&mut all, s, 0, s.len());
            proof {
                assert(all@ =~= s@);
            }
            (all, None)
        },
    }
}

fn device_error(prefix: &str, stored: &str) -> (r: AudioError)
    ensures
        r matches AudioError::Device(m) && m@ == prefix@ + stored@,
{
    let mut m = chars_of(prefix);
    extend_str(&mut m, stored);
    AudioError::Device(string_from(m.as_slice()))
}

fn is_word(w: &Vec<char>, lit: &str) -> (r: bool)
    ensures
        r == (w@ == lit@),
{
    let l = chars_of(lit);
    same_chars(w.as_slice(), l.as_slice())
}

/// The direction and endpoint id a stored device id names.
pub fn parse_device_id(stored: &str) -> (r: Result<(EndpointDirection, String), AudioError>)
    ensures
        match (r, parsed_device_id(stored@)) {
            (Ok((d, id)), Ok((sd, sid))) => d == sd && id@ == sid,
            (Err(AudioError::Device(m)), Err(sm)) => m@ == sm,
            _ => false,
        },
{
    let cs = chars_of(stored);
    let (first, rest) = split_colon_exec(cs.as_slice());
    if !is_word(&first, "wasapi") {
        return Err(device_error("legacy audio device is no longer valid: ", stored));
    }
    let rest = match rest {
        Some(r) => r,
        None => {
            return Err(device_error("invalid WASAPI device id: ", stored));
        },
    };
    let (second, tail) = split_colon_exec(rest.as_slice());
    let dir = if is_word(&second, "capture") {
        EndpointDirection::Capture
    } else if is_word(&second, "render") {
        EndpointDirection::RenderLoopback
    } else {
        return Err(device_error("invalid WASAPI device id: ", stored));
    };
    match tail {
        Some(id) => {
            if id.len() > 0 {
                Ok((dir, string_from(id.as_slice())))
            } else {
                Err(device_error("invalid WASAPI device id: ", stored))
            }
        },
        None => Err(device_error("invalid WASAPI device id: ", stored)),
    }
}

/// The streams a recording asks for: the microphone, then the loopback,
/// each only when named with a non-empty id.
pub open spec fn requested(mic: Option<Seq<char>>, loopback: Option<Seq<char>>) -> Seq<(Seq<char>, EndpointDirection)> {
    let a: Seq<(Seq<char>, EndpointDirection)> = match mic {
        Some(m) => if m.len() > 0 { seq![(m, EndpointDirection::Capture)] } else { seq![] },
        None => seq![],
    };
    let b: Seq<(Seq<char>, EndpointDirection)> = match loopback {
        Some(l) => if l.len() > 0 { seq![(l, EndpointDirection::RenderLoopback)] } else { seq![] },
        None => seq![],
    };
    a + b
}

pub fn requested_streams(mic: Option<&str>, loopback: Option<&str>) -> (r: Vec<(String, EndpointDirection)>)
    ensures
        r@.map_values(|p: (String, EndpointDirection)| (p.0@, p.1)) == requested(
            opt_str_view(mic),
            opt_str_view(loopback),
        ),
{
    let mut out: Vec<(String, EndpointDirection)> = Vec::new();
    let ghost a: Seq<(Seq<char>, EndpointDirection)> = Seq::empty();
    if let Some(m) = mic {
        let mc = chars_of(m);
        if mc.len() > 0 {
            out.push((crate::text::owned(m), EndpointDirection::Capture));
        }
    }
    let ghost after_mic = out@.map_values(|p: (String, EndpointDirection)| (p.0@, p.1));
    if let Some(l) = loopback {
        let lc = chars_of(l);
        if lc.len() > 0 {
            out.push((crate::text::owned(l), EndpointDirection::RenderLoopback));
        }
    }
    proof {
        assert(out@.map_values(|p: (String, EndpointDirection)| (p.0@, p.1)) =~= requested(
            opt_str_view(mic),
            opt_str_view(loopback),
        ));
    }
    out
}

/// Bytes of one 10 ms chunk of 48 kHz stereo `f32` PCM.
pub const CHUNK_BYTES: usize = 3840;

/// At most this many bytes of captured audio wait in the queue (200 ms).
pub const MAX_QUEUED_BYTES: usize = 76800;

/// The queue with its oldest bytes dropped down to 200 ms: when capture
/// falls behind, old samples are worth less than staying in step with the
/// video clock.
pub open spec fn trimmed_queue(q: Seq<u8>) -> Seq<u8> {
    if q.len() > MAX_QUEUED_BYTES {
        q.skip(q.len() - MAX_QUEUED_BYTES)
    } else {
        q
    }
}

/// The chunk sent from a queue: its first `CHUNK_BYTES` bytes, padded with
/// silence (zero bytes) when it holds fewer.
pub open spec fn chunk_of(q: Seq<u8>) -> Seq<u8> {
    Seq::new(CHUNK_BYTES as nat, |i: int| if i < q.len() { q[i] } else { 0u8 })
}

/// What stays queued after a chunk is taken.
pub open spec fn after_chunk(q: Seq<u8>) -> Seq<u8> {
    if q.len() > CHUNK_BYTES {
        q.skip(CHUNK_BYTES as int)
    } else {
        Seq::empty()
    }
}

/// One 10 ms tick of a PCM stream to FFmpeg: trim the queue to 200 ms,
/// then take the next chunk from its front, padding with silence.
pub fn next_pcm_chunk(queue: &mut VecDeque<u8>) -> (r: Vec<u8>)
    ensures
        r@ == chunk_of(trimmed_queue(old(queue)@)),
        final(queue)@ == after_chunk(trimmed_queue(old(queue)@)),
{
    let ghost q0 = queue@;
    let ghost t = trimmed_queue(q0);
    while queue.len() > MAX_QUEUED_BYTES
        invariant
            q0 == old(queue)@,
            t == trimmed_queue(q0),
            queue@.len() >= MAX_QUEUED_BYTES ==> queue@ == q0.skip(q0.len() - queue@.len()),
            queue@.len() < MAX_QUEUED_BYTES ==> queue@ == q0,
            queue@.len() <= q0.len(),
        decreases queue@.len(),
    {
        let _ = queue.pop_front();
        assert(queue@ =~= q0.skip(q0.len() - queue@.len()));
    }
    assert(queue@ =~= t);
    let mut chunk: Vec<u8> = Vec::new();
    let mut i: usize = 0;
    while i < CHUNK_BYTES
        invariant
            i <= CHUNK_BYTES,
            t == trimmed_queue(q0),
            chunk@ == chunk_of(t).take(i as int),
            queue@ == if i <= t.len() { t.skip(i as int) } else { Seq::<u8>::empty() },
        decreases CHUNK_BYTES - i,
    {
        let b: u8 = match queue.pop_front() {
            Some(x) => x,
            None => 0,
        };
        assert(b == chunk_of(t)[i as int]);
        chunk.push(b);
        assert(chunk@ =~= chunk_of(t).take(i + 1));
        assert(queue@ =~= if i + 1 <= t.len() { t.skip(i + 1) } else { Seq::<u8>::empty() });
        i = i + 1;
    }
    assert(chunk@ =~= chunk_of(t));
    assert(queue@ =~= after_chunk(t));
    chunk
}

/// When the next 10 ms tick falls after a tick at `next` sent at `now`
/// (clock readings in ms): 10 ms later, unless that is more than 100 ms
/// behind `now`, in which case the pacing restarts 10 ms after `now`.
pub open spec fn tick_after(next: u64, now: u64) -> int {
    let n = next + 10;
    if now > n && now - n > 100 {
        now + 10
    } else {
        n
    }
}

/// The next tick of a PCM stream's pacing after one is sent.
pub fn next_pcm_tick(next: u64, now: u64) -> (r: u64)
    requires
        next + 10 <= u64::MAX,
        now + 10 <= u64::MAX,
    ensures
        r == tick_after(next, now),
{
    let n = next + 10;
    if now > n && now - n > 100 {
        now + 10
    } else {
        n
    }
}

} // verus!
