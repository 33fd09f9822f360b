//! Clipboard writes: the OSC 52 escape sequence with its Base64 payload, the
//! choice of external clipboard tool and its arguments, the multiplexer
//! name, and the fallback chain between OSC 52, an external tool and a file.
//!
//! The terminal, process and file work itself is done by the caller; this
//! module frames the bytes and decides what to try next.

use vstd::prelude::*;

use vstd::utf8::encode_utf8;

use crate::text::{str_eq, string_of};

verus! {

// ---------------------------------------------------------------------------
// Base64
// ---------------------------------------------------------------------------

/// The Base64 symbol for the sextet `v` (standard alphabet `A-Za-z0-9+/`).
pub open spec fn b64_symbol(v: int) -> u8 {
    if v < 26 {
        (65 + v) as u8
    } else if v < 52 {
        (97 + (v - 26)) as u8
    } else if v < 62 {
        (48 + (v - 52)) as u8
    } else if v == 62 {
        43u8
    } else {
        47u8
    }
}

/// The padding byte `=`.
pub open spec fn b64_pad() -> u8 {
    61u8
}

/// The 24-bit group made of three bytes.
pub open spec fn group(b0: u8, b1: u8, b2: u8) -> int {
    b0 as int * 65536 + b1 as int * 256 + b2 as int
}

/// Sextet `k` (0 is the most significant) of the 24-bit group `n`.
pub open spec fn sextet(n: int, k: int) -> int {
    if k == 0 {
        n / 262144
    } else if k == 1 {
        (n / 4096) % 64
    } else if k == 2 {
        (n / 64) % 64
    } else {
        n % 64
    }
}

/// Standard Base64 (RFC 4648, with `=` padding) of `b`.
pub open spec fn b64(b: Seq<u8>) -> Seq<u8>
    decreases b.len(),
{
    if b.len() == 0 {
        Seq::empty()
    } else if b.len() == 1 {
        let n = group(b[0], 0, 0);
        seq![b64_symbol(sextet(n, 0)), b64_symbol(sextet(n, 1)), b64_pad(), b64_pad()]
    } else if b.len() == 2 {
        let n = group(b[0], b[1], 0);
        seq![b64_symbol(sextet(n, 0)), b64_symbol(sextet(n, 1)), b64_symbol(sextet(n, 2)), b64_pad()]
    } else {
        let n = group(b[0], b[1], b[2]);
        seq![
            b64_symbol(sextet(n, 0)),
            b64_symbol(sextet(n, 1)),
            b64_symbol(sextet(n, 2)),
            b64_symbol(sextet(n, 3)),
        ] + b64(b.subrange(3, b.len() as int))
    }
}

/// The Base64 symbol for a sextet.
fn b64_digit(v: u32) -> (c: u8)
    requires
        v < 64,
    ensures
        c == b64_symbol(v as int),
{
    if v < 26 {
        65 + v as u8
    } else if v < 52 {
        97 + (v - 26) as u8
    } else if v < 62 {
        48 + (v - 52) as u8
    } else if v == 62 {
        43
    } else {
        47
    }
}

/// The four sextets of a 24-bit group, by shifts and masks.
fn sextets(b0: u8, b1: u8, b2: u8) -> (r: (u32, u32, u32, u32))
    ensures
        r.0 == sextet(group(b0, b1, b2), 0),
        r.1 == sextet(group(b0, b1, b2), 1),
        r.2 == sextet(group(b0, b1, b2), 2),
        r.3 == sextet(group(b0, b1, b2), 3),
        r.0 < 64,
        r.1 < 64,
        r.2 < 64,
        r.3 < 64,
{
    let x0 = b0 as u32;
    let x1 = b1 as u32;
    let x2 = b2 as u32;
    let n: u32 = (x0 << 16u32) | (x1 << 8u32) | x2;
    assert(n == x0 * 65536 + x1 * 256 + x2 && n < 16777216) by (bit_vector)
        requires
            x0 < 256,
            x1 < 256,
            x2 < 256,
            n == (x0 << 16u32) | (x1 << 8u32) | x2,
    ;
    let s0 = (n >> 18u32) & 0x3f;
    let s1 = (n >> 12u32) & 0x3f;
    let s2 = (n >> 6u32) & 0x3f;
    let s3 = n & 0x3f;
    assert(s0 == n / 262144 && s1 == (n / 4096) % 64 && s2 == (n / 64) % 64 && s3 == n % 64)
        by (bit_vector)
        requires
            n < 16777216,
            s0 == (n >> 18u32) & 0x3f,
            s1 == (n >> 12u32) & 0x3f,
            s2 == (n >> 6u32) & 0x3f,
            s3 == n & 0x3f,
    ;
    (s0, s1, s2, s3)
}

/// The first `k` (1 to 3) of the bytes `b0`, `b1`, `b2`.
pub open spec fn chunk_of(b0: u8, b1: u8, b2: u8, k: int) -> Seq<u8> {
    if k == 1 {
        seq![b0]
    } else if k == 2 {
        seq![b0, b1]
    } else {
        seq![b0, b1, b2]
    }
}

/// Append the encoding of a chunk of `k` (1 to 3) bytes; missing bytes read as zero.
fn push_chunk(out: &mut Vec<u8>, b0: u8, b1: u8, b2: u8, k: usize)
    requires
        1 <= k <= 3,
        k < 2 ==> b1 == 0,
        k < 3 ==> b2 == 0,
    ensures
        final(out)@ == old(out)@ + b64(chunk_of(b0, b1, b2, k as int)),
{
    let ghost o0 = out@;
    let (s0, s1, s2, s3) = sextets(b0, b1, b2);
    out.push(b64_digit(s0));
    out.push(b64_digit(s1));
    if k > 1 {
        out.push(b64_digit(s2));
    } else {
        out.push(61);
    }
    if k > 2 {
        out.push(b64_digit(s3));
    } else {
        out.push(61);
    }
    proof {
        let c = chunk_of(b0, b1, b2, k as int);
        if k == 3 {
            reveal_with_fuel(b64, 2);
            assert(c.subrange(3, 3) =~= Seq::<u8>::empty());
            assert(b64(c) =~= seq![
                b64_symbol(sextet(group(b0, b1, b2), 0)),
                b64_symbol(sextet(group(b0, b1, b2), 1)),
                b64_symbol(sextet(group(b0, b1, b2), 2)),
                b64_symbol(sextet(group(b0, b1, b2), 3)),
            ]);
        }
        assert(out@ =~= o0 + b64(c));
    }
}

/// Base64 works group by group: the first `k` bytes (`k` a multiple of 3)
/// encode on their own.
proof fn lemma_b64_split(b: Seq<u8>)
    requires
        b.len() > 3,
    ensures
        b64(b) == b64(b.take(3)) + b64(b.skip(3)),
{
    let t = b.take(3);
    reveal_with_fuel(b64, 2);
    assert(t.subrange(3, 3) =~= Seq::<u8>::empty());
    assert(b.subrange(3, b.len() as int) =~= b.skip(3));
    assert(b64(t) =~= seq![
        b64_symbol(sextet(group(b[0], b[1], b[2]), 0)),
        b64_symbol(sextet(group(b[0], b[1], b[2]), 1)),
        b64_symbol(sextet(group(b[0], b[1], b[2]), 2)),
        b64_symbol(sextet(group(b[0], b[1], b[2]), 3)),
    ]);
}

/// Append the Base64 encoding of `input` to `out`.
fn push_b64(input: &[u8], out: &mut Vec<u8>)
    ensures
        final(out)@ == old(out)@ + b64(input@),
{
    let n = input.len();
    let ghost o0 = out@;
    let mut i: usize = 0;
    proof {
        assert(input@.subrange(0, n as int) =~= input@);
    }
    while i < n
        invariant
            n == input@.len(),
            i <= n,
            out@ + b64(input@.subrange(i as int, n as int)) == o0 + b64(input@),
        decreases n - i,
    {
        let ghost rest = input@.subrange(i as int, n as int);
        let ghost o1 = out@;
        let k: usize = if n - i >= 3 {
            3
        } else {
            n - i
        };
        let b0 = input[i];
        let b1: u8 = if k >= 2 {
            input[i + 1]
        } else {
            0
        };
        let b2: u8 = if k >= 3 {
            input[i + 2]
        } else {
            0
        };
        push_chunk(out, b0, b1, b2, k);
        proof {
            assert(rest.take(k as int) =~= chunk_of(b0, b1, b2, k as int));
            assert(rest.skip(k as int) =~= input@.subrange(i + k, n as int));
            if rest.len() > 3 {
                lemma_b64_split(rest);
            } else {
                assert(rest.take(k as int) =~= rest);
                assert(rest.skip(k as int) =~= Seq::<u8>::empty());
            }
            assert(out@ + b64(input@.subrange(i + k, n as int)) =~= o1 + b64(rest));
        }
        i = i + k;
    }
    proof {
        assert(input@.subrange(n as int, n as int) =~= Seq::<u8>::empty());
        assert(out@ + b64(input@.subrange(n as int, n as int)) =~= out@);
    }
}

/// A byte that Base64 output may hold: a symbol of the alphabet or `=`.
pub open spec fn is_b64_byte(c: u8) -> bool {
    (65 <= c <= 90) || (97 <= c <= 122) || (48 <= c <= 57) || c == 43 || c == 47 || c == 61
}

proof fn lemma_group_symbols(b0: u8, b1: u8, b2: u8)
    ensures
        forall|k: int| 0 <= k < 4 ==> is_b64_byte(#[trigger] b64_symbol(sextet(group(b0, b1, b2), k))),
{
    let n = group(b0, b1, b2);
    assert(0 <= n < 16777216);
    assert forall|k: int| 0 <= k < 4 implies is_b64_byte(#[trigger] b64_symbol(sextet(n, k))) by {
        let v = sextet(n, k);
        assert(0 <= v < 64);
    }
}

/// Base64 output is four bytes for every started group of three input
/// bytes, and every byte is a symbol of the alphabet or the padding `=`.
pub proof fn law_b64_shape(b: Seq<u8>)
    ensures
        b64(b).len() == 4 * ((b.len() + 2) / 3),
        forall|i: int| 0 <= i < b64(b).len() ==> is_b64_byte(#[trigger] b64(b)[i]),
    decreases b.len(),
{
    reveal_with_fuel(b64, 2);
    if b.len() == 0 {
    } else if b.len() == 1 {
        lemma_group_symbols(b[0], 0, 0);
        assert(b64_symbol(sextet(group(b[0], 0, 0), 0)) == b64(b)[0]);
        assert(b64_symbol(sextet(group(b[0], 0, 0), 1)) == b64(b)[1]);
    } else if b.len() == 2 {
        lemma_group_symbols(b[0], b[1], 0);
        assert(b64_symbol(sextet(group(b[0], b[1], 0), 0)) == b64(b)[0]);
        assert(b64_symbol(sextet(group(b[0], b[1], 0), 1)) == b64(b)[1]);
        assert(b64_symbol(sextet(group(b[0], b[1], 0), 2)) == b64(b)[2]);
    } else {
        let rest = b.subrange(3, b.len() as int);
        law_b64_shape(rest);
        lemma_group_symbols(b[0], b[1], b[2]);
        let n = group(b[0], b[1], b[2]);
        assert(b64_symbol(sextet(n, 0)) == b64(b)[0]);
        assert(b64_symbol(sextet(n, 1)) == b64(b)[1]);
        assert(b64_symbol(sextet(n, 2)) == b64(b)[2]);
        assert(b64_symbol(sextet(n, 3)) == b64(b)[3]);
        assert forall|i: int| 0 <= i < b64(b).len() implies is_b64_byte(#[trigger] b64(b)[i]) by {
            if i >= 4 {
                assert(b64(b)[i] == b64(rest)[i - 4]);
            }
        }
    }
}

/// The bytes `b` read as characters (each below 0x80 in Base64 output).
pub open spec fn ascii_chars(b: Seq<u8>) -> Seq<char> {
    b.map_values(|x: u8| x as char)
}

/// Standard Base64 of `input`, with `=` padding.
pub fn base64_encode(input: &[u8]) -> (s: String)
    ensures
        s@ == ascii_chars(b64(input@)),
{
    let mut bytes: Vec<u8> = Vec::new();
    push_b64(input, &mut bytes);
    let mut chars: Vec<char> = Vec::new();
    let mut i: usize = 0;
    while i < bytes.len()
        invariant
            i <= bytes@.len(),
            bytes@ == b64(input@),
            chars@ == ascii_chars(bytes@.subrange(0, i as int)),
        decreases bytes@.len() - i,
    {
        chars.push(bytes[i] as char);
        proof {
            assert(ascii_chars(bytes@.subrange(0, i + 1)) =~= ascii_chars(
                bytes@.subrange(0, i as int),
            ).push(bytes@[i as int] as char));
        }
        i = i + 1;
    }
    proof {
        assert(bytes@.subrange(0, bytes@.len() as int) =~= bytes@);
    }
    string_of(chars.as_slice())
}

// ---------------------------------------------------------------------------
// OSC 52
// ---------------------------------------------------------------------------

/// `ESC ] 52 ; c ;`, which opens the clipboard escape sequence.
pub open spec fn osc52_intro() -> Seq<u8> {
    seq![0x1bu8, 0x5du8, 0x35u8, 0x32u8, 0x3bu8, 0x63u8, 0x3bu8]
}

/// The OSC 52 sequence that sets the clipboard to `content`:
/// `ESC ] 52 ; c ; <base64 of the UTF-8 bytes> BEL`.
pub open spec fn osc52_sequence(content: Seq<char>) -> Seq<u8> {
    osc52_intro() + b64(encode_utf8(content)) + seq![0x07u8]
}

/// Clipboard write failures.
#[derive(Debug)]
pub enum ClipboardError {
    /// Writing the OSC 52 sequence to the terminal failed.
    Osc52WriteFailed(String),
    /// No clipboard tool (wl-copy, xclip, xsel, pbcopy, clip.exe) was found.
    ExternalToolNotFound,
    /// The clipboard tool could not be run or exited with a failure.
    ExternalToolFailed(String),
    /// Writing the clipboard file failed.
    FileWriteFailed(std::io::Error),
}

#[verifier::external_type_specification]
#[verifier::external_body]
pub struct ExIoError(std::io::Error);

/// Append the OSC 52 sequence for `content` to `writer`. Appending to a
/// byte buffer cannot fail, so the result is always `Ok`.
pub fn write_osc52(content: &str, writer: &mut Vec<u8>) -> (r: Result<(), ClipboardError>)
    ensures
        final(writer)@ == old(writer)@ + osc52_sequence(content@),
        r is Ok,
{
    let ghost w0 = writer@;
    writer.push(0x1b);
    writer.push(0x5d);
    writer.push(0x35);
    writer.push(0x32);
    writer.push(0x3b);
    writer.push(0x63);
    writer.push(0x3b);
    proof {
        assert(writer@ =~= w0 + osc52_intro());
    }
    let bytes = content.as_bytes();
    push_b64(bytes, writer);
    writer.push(0x07);
    proof {
        assert(writer@ =~= w0 + osc52_sequence(content@));
    }
    Ok(())
}

// ---------------------------------------------------------------------------
// Multiplexer and external tool
// ---------------------------------------------------------------------------

/// The active terminal multiplexer, given which of `TMUX`, `ZELLIJ` and
/// `STY` are set; tmux wins over zellij, which wins over screen.
pub fn multiplexer_name(tmux: bool, zellij: bool, screen: bool) -> (r: Option<&'static str>)
    ensures
        tmux ==> r is Some && r->0@ == "tmux"@,
        !tmux && zellij ==> r is Some && r->0@ == "zellij"@,
        !tmux && !zellij && screen ==> r is Some && r->0@ == "screen"@,
        !tmux && !zellij && !screen ==> r is None,
{
    if tmux {
        Some("tmux")
    } else if zellij {
        Some("zellij")
    } else if screen {
        Some("screen")
    } else {
        None
    }
}

/// The clipboard tool to use on Linux and other Unix systems: `clip.exe`
/// under WSL (`WSLENV` set), else `wl-copy` under Wayland when installed,
/// else the first of `xclip` and `xsel` that is installed.
pub fn external_tool_for(
    wsl: bool,
    wayland: bool,
    has_wl_copy: bool,
    has_xclip: bool,
    has_xsel: bool,
) -> (r: Option<&'static str>)
    ensures
        wsl ==> r is Some && r->0@ == "clip.exe"@,
        !wsl && wayland && has_wl_copy ==> r is Some && r->0@ == "wl-copy"@,
        !wsl && !(wayland && has_wl_copy) && has_xclip ==> r is Some && r->0@ == "xclip"@,
        !wsl && !(wayland && has_wl_copy) && !has_xclip && has_xsel ==> r is Some && r->0@
            == "xsel"@,
        !wsl && !(wayland && has_wl_copy) && !has_xclip && !has_xsel ==> r is None,
{
    if wsl {
        return Some("clip.exe");
    }
    if wayland && has_wl_copy {
        return Some("wl-copy");
    }
    if has_xclip {
        return Some("xclip");
    }
    if has_xsel {
        return Some("xsel");
    }
    None
}

/// The arguments that make `tool` target the system clipboard: `xclip`
/// takes `-selection clipboard`, `xsel` takes `--clipboard --input`, the
/// others take none.
pub fn external_tool_args(tool: &str) -> (args: Vec<&'static str>)
    ensures
        tool@ == "xclip"@ ==> args@.len() == 2 && args@[0]@ == "-selection"@ && args@[1]@
            == "clipboard"@,
        tool@ == "xsel"@ ==> args@.len() == 2 && args@[0]@ == "--clipboard"@ && args@[1]@
            == "--input"@,
        tool@ != "xclip"@ && tool@ != "xsel"@ ==> args@.len() == 0,
{
    proof {
        reveal_strlit("xclip");
        reveal_strlit("xsel");
        assert("xclip"@ != "xsel"@) by {
            assert("xclip"@.len() != "xsel"@.len());
        }
    }
    if str_eq(tool, "xclip") {
        vec!["-selection", "clipboard"]
    } else if str_eq(tool, "xsel") {
        vec!["--clipboard", "--input"]
    } else {
        Vec::new()
    }
}

// ---------------------------------------------------------------------------
// Fallback chain
// ---------------------------------------------------------------------------

/// How clipboard writes are performed.
#[derive(Debug, Clone, Copy, PartialEq, Eq, Structural)]
pub enum ClipboardMethod {
    /// OSC 52 escape sequence (default). Falls back to external, then file.
    Osc52,
    /// External tool. Falls back to file.
    External,
    /// Write to `$XDG_DATA_HOME/ucode/clipboard`.
    File,
}

impl Default for ClipboardMethod {
    fn default() -> (m: Self)
        ensures
            m == ClipboardMethod::Osc52,
    {
        ClipboardMethod::Osc52
    }
}

/// One piece of work in a clipboard write.
#[derive(Debug, Clone, Copy)]
pub enum ClipboardStep {
    /// Write the OSC 52 sequence to the terminal.
    Osc52,
    /// Look for an installed clipboard tool.
    DetectTool,
    /// Pipe the content to the named tool.
    External(&'static str),
    /// Write the clipboard file.
    File,
}

/// What a step gave.
#[derive(Debug)]
pub enum ClipboardEvent {
    Osc52Written(Result<(), ClipboardError>),
    ToolDetected(Option<&'static str>),
    ExternalWritten(Result<(), ClipboardError>),
    FileWritten(Result<(), ClipboardError>),
}

/// What to do after a step.
#[derive(Debug)]
pub enum ClipboardNext {
    Run(ClipboardStep),
    Finish(Result<(), ClipboardError>),
}

/// The first step of a write with `method`: OSC 52, tool detection, or the file.
pub fn clipboard_start(method: ClipboardMethod) -> (s: ClipboardStep)
    ensures
        method == ClipboardMethod::Osc52 ==> s == ClipboardStep::Osc52,
        method == ClipboardMethod::External ==> s == ClipboardStep::DetectTool,
        method == ClipboardMethod::File ==> s == ClipboardStep::File,
{
    match method {
        ClipboardMethod::Osc52 => ClipboardStep::Osc52,
        ClipboardMethod::External => ClipboardStep::DetectTool,
        ClipboardMethod::File => ClipboardStep::File,
    }
}

/// The step after `event` in a write with `method`. A successful OSC 52 or
/// tool write finishes with `Ok`; a failed one moves on (OSC 52 to tool
/// detection, a tool to the file); a found tool is run; no tool means the
/// file for `Osc52` and `ExternalToolNotFound` otherwise; the file's result
/// is the final result.
pub fn clipboard_next(method: ClipboardMethod, event: ClipboardEvent) -> (n: ClipboardNext)
    ensures
        match event {
            ClipboardEvent::Osc52Written(Ok(())) => n matches ClipboardNext::Finish(Ok(())),
            ClipboardEvent::Osc52Written(Err(_)) => n matches ClipboardNext::Run(
                ClipboardStep::DetectTool,
            ),
            ClipboardEvent::ToolDetected(Some(t)) => n matches ClipboardNext::Run(
                ClipboardStep::External(u),
            ) && u == t,
            ClipboardEvent::ToolDetected(None) => if method == ClipboardMethod::Osc52 {
                n matches ClipboardNext::Run(ClipboardStep::File)
            } else {
                n matches ClipboardNext::Finish(Err(ClipboardError::ExternalToolNotFound))
            },
            ClipboardEvent::ExternalWritten(Ok(())) => n matches ClipboardNext::Finish(Ok(())),
            ClipboardEvent::ExternalWritten(Err(_)) => n matches ClipboardNext::Run(
                ClipboardStep::File,
            ),
            ClipboardEvent::FileWritten(r) => n == ClipboardNext::Finish(r),
        },
{
    match event {
        ClipboardEvent::Osc52Written(Ok(())) => ClipboardNext::Finish(Ok(())),
        ClipboardEvent::Osc52Written(Err(_)) => ClipboardNext::Run(ClipboardStep::DetectTool),
        ClipboardEvent::ToolDetected(Some(t)) => ClipboardNext::Run(ClipboardStep::External(t)),
        ClipboardEvent::ToolDetected(None) => {
            if method == ClipboardMethod::Osc52 {
                ClipboardNext::Run(ClipboardStep::File)
            } else {
                ClipboardNext::Finish(Err(ClipboardError::ExternalToolNotFound))
            }
        },
        ClipboardEvent::ExternalWritten(Ok(())) => ClipboardNext::Finish(Ok(())),
        ClipboardEvent::ExternalWritten(Err(_)) => ClipboardNext::Run(ClipboardStep::File),
        ClipboardEvent::FileWritten(r) => ClipboardNext::Finish(r),
    }
}

} // verus!
