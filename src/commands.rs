use crate::ctrl_seq::push_number;
use crate::encoding::{b64_encode, read_bytes_to_b64};
use crate::numfmt::digits_of;
use vstd::prelude::*;

verus! {

/// Longest base64 payload of one graphics command.
pub const MAX_PAYLOAD_SIZE: usize = 4096;

/// A terminal command could not be run, or gave no answer.
#[derive(Debug, Clone, Copy, PartialEq, Eq)]
pub struct TerminalCommandError {}

/// A position of the cursor: row and column, both counted from one at the top left.
#[derive(Debug, Clone, Copy, PartialEq, Eq)]
pub struct TermPosition {
    pub row: u32,
    pub col: u32,
}

/// The bytes `ESC _ G` that open a graphics command.
pub open spec fn apc_start() -> Seq<u8> {
    seq![0x1bu8, 0x5fu8, 0x47u8]
}

/// The bytes `ESC \` that close one.
pub open spec fn apc_end() -> Seq<u8> {
    seq![0x1bu8, 0x5cu8]
}

/// `m=1` while more chunks follow, `m=0` on the last.
pub open spec fn more_flag(more: bool) -> Seq<u8> {
    seq![0x6du8, 0x3du8, if more { 0x31u8 } else { 0x30u8 }]
}

/// The parts laid end to end with a comma between each two.
pub open spec fn join_commas(parts: Seq<Seq<u8>>) -> Seq<u8>
    decreases parts.len(),
{
    if parts.len() == 0 {
        Seq::empty()
    } else if parts.len() == 1 {
        parts[0]
    } else {
        join_commas(parts.drop_last()) + seq![0x2cu8] + parts.last()
    }
}

/// How many chunks of at most [`MAX_PAYLOAD_SIZE`] bytes `len` bytes make.
pub open spec fn chunk_count(len: int) -> int {
    (len + MAX_PAYLOAD_SIZE - 1) / MAX_PAYLOAD_SIZE as int
}

/// The `k`-th graphics command of a payload split into chunks: the first carries the
/// attributes `attrs` before its flag.
pub open spec fn kitty_frame(data: Seq<u8>, attrs: Seq<Seq<u8>>, k: int) -> Seq<u8> {
    let n = chunk_count(data.len() as int);
    let start = k * MAX_PAYLOAD_SIZE;
    let end = if start + MAX_PAYLOAD_SIZE < data.len() {
        start + MAX_PAYLOAD_SIZE
    } else {
        data.len() as int
    };
    let keys = if k == 0 {
        attrs.push(more_flag(k != n - 1))
    } else {
        seq![more_flag(k != n - 1)]
    };
    apc_start() + join_commas(keys) + seq![0x3bu8] + data.subrange(start, end) + apc_end()
}

/// The first `k` commands laid end to end.
pub open spec fn kitty_frames(data: Seq<u8>, attrs: Seq<Seq<u8>>, k: int) -> Seq<u8>
    decreases k,
{
    if k <= 0 {
        Seq::empty()
    } else {
        kitty_frames(data, attrs, k - 1) + kitty_frame(data, attrs, k - 1)
    }
}

/// A graphics command: the payload in base64, cut into chunks, each in its own command.
#[derive(Debug, Clone)]
pub struct KittyCommand {
    pub cmd: Vec<u8>,
}

fn push_bytes(out: &mut Vec<u8>, b: &[u8])
    ensures
        final(out)@ == old(out)@ + b@,
{
    let mut i: usize = 0;
    while i < b.len()
        invariant
            i <= b@.len(),
            out@ == old(out)@ + b@.subrange(0, i as int),
        decreases b@.len() - i,
    {
        out.push(b[i]);
        proof {
            assert(b@.subrange(0, i + 1) == b@.subrange(0, i as int).push(b@[i as int]));
        }
        i = i + 1;
    }
    proof {
        assert(b@.subrange(0, b@.len() as int) == b@);
    }
}

/// The bytes of a string: its characters in UTF-8.
pub open spec fn char_bytes(s: Seq<char>) -> Seq<u8> {
    vstd::utf8::encode_utf8(s)
}

/// The bytes of each attribute.
pub open spec fn attr_bytes(ctrl: Seq<String>) -> Seq<Seq<u8>> {
    ctrl.map_values(|s: String| char_bytes(s@))
}

/// The bytes of a string in UTF-8; see [`char_bytes`].
pub fn string_bytes(s: &String) -> (r: Vec<u8>)
    ensures
        r@ == char_bytes(s@),
{
    str_bytes(s.as_str())
}

fn str_bytes(t: &str) -> (r: Vec<u8>)
    ensures
        r@ == char_bytes(t@),
{
    let b = t.as_bytes();
    let mut out: Vec<u8> = Vec::new();
    push_bytes(&mut out, b);
    out
}

/// The attributes' bytes joined by commas.
fn join_attrs(ctrl_data: &[String]) -> (r: Vec<u8>)
    ensures
        r@ == join_commas(attr_bytes(ctrl_data@)),
{
    let mut out: Vec<u8> = Vec::new();
    let mut i: usize = 0;
    while i < ctrl_data.len()
        invariant
            i <= ctrl_data@.len(),
            out@ == join_commas(attr_bytes(ctrl_data@.take(i as int))),
        decreases ctrl_data@.len() - i,
    {
        let b = string_bytes(&ctrl_data[i]);
        proof {
            let t = attr_bytes(ctrl_data@.take(i as int + 1));
            assert(t.drop_last() =~= attr_bytes(ctrl_data@.take(i as int)));
            assert(t.last() == char_bytes(ctrl_data@[i as int]@));
        }
        if i > 0 {
            out.push(0x2c);
        }
        push_bytes(&mut out, b.as_slice());
        i = i + 1;
    }
    proof {
        assert(ctrl_data@.take(ctrl_data@.len() as int) == ctrl_data@);
    }
    out
}

impl KittyCommand {
    /// The commands that send `payload` with the keys `ctrl_data`: the base64 of the payload
    /// in chunks of at most [`MAX_PAYLOAD_SIZE`] bytes, each as `ESC _ G keys ; chunk ESC \`.
    /// The first chunk carries `ctrl_data`; every chunk ends its keys with `m=1`, or `m=0`
    /// on the last.
    #[verifier::rlimit(80)]
    pub fn new(payload: &[u8], ctrl_data: &[String]) -> (r: KittyCommand)
        ensures
            r.cmd@ == kitty_frames(
                b64_encode(payload@),
                attr_bytes(ctrl_data@),
                chunk_count(b64_encode(payload@).len() as int),
            ),
    {
        let data = match read_bytes_to_b64(payload) {
            Ok(d) => d,
            Err(_) => Vec::new(),
        };
        let ghost attrs = attr_bytes(ctrl_data@);
        let joined = join_attrs(ctrl_data);
        let len = data.len();
        let n = len / MAX_PAYLOAD_SIZE + if len % MAX_PAYLOAD_SIZE > 0 {
            1
        } else {
            0
        };
        proof {
            assert(n == chunk_count(len as int)) by (nonlinear_arith)
                requires
                    n == len / 4096 + if len % 4096 > 0 {
                        1int
                    } else {
                        0
                    },
                    MAX_PAYLOAD_SIZE == 4096,
            ;
            assert(n * 4096 <= len + 4095) by (nonlinear_arith)
                requires
                    n == chunk_count(len as int),
                    MAX_PAYLOAD_SIZE == 4096,
            ;
        }
        let mut cmd: Vec<u8> = Vec::new();
        let mut k: usize = 0;
        while k < n
            invariant
                data@ == b64_encode(payload@),
                len == data@.len(),
                n == chunk_count(len as int),
                n * 4096 <= len + 4095,
                joined@ == join_commas(attrs),
                attrs == attr_bytes(ctrl_data@),
                k <= n,
                cmd@ == kitty_frames(data@, attrs, k as int),
            decreases n - k,
        {
            let ghost before = cmd@;
            let more = k + 1 != n;
            cmd.push(0x1b);
            cmd.push(0x5f);
            cmd.push(0x47);
            if k == 0 && ctrl_data.len() > 0 {
                push_bytes(&mut cmd, joined.as_slice());
                cmd.push(0x2c);
            }
            cmd.push(0x6d);
            cmd.push(0x3d);
            cmd.push(if more { 0x31 } else { 0x30 });
            cmd.push(0x3b);
            proof {
                assert(k * 4096 < len) by (nonlinear_arith)
                    requires
                        k < n,
                        n == (len + 4095) / 4096,
                ;
            }
            let start = k * MAX_PAYLOAD_SIZE;
            let end = if len - start > MAX_PAYLOAD_SIZE {
                start + MAX_PAYLOAD_SIZE
            } else {
                len
            };
            push_bytes(&mut cmd, vstd::slice::slice_subrange(data.as_slice(), start, end));
            cmd.push(0x1b);
            cmd.push(0x5c);
            proof {
                let keys = if k == 0 {
                    attrs.push(more_flag(k != n - 1))
                } else {
                    seq![more_flag(k != n - 1)]
                };
                if k == 0 {
                    let kk = attrs.push(more_flag(k != n - 1));
                    assert(kk.drop_last() == attrs);
                    if attrs.len() == 0 {
                        assert(join_commas(kk) == more_flag(k != n - 1));
                    } else {
                        assert(join_commas(kk) == join_commas(attrs) + seq![0x2cu8] + more_flag(
                            k != n - 1,
                        ));
                    }
                } else {
                    assert(join_commas(keys) == more_flag(k != n - 1));
                }
                assert(cmd@ =~= before + kitty_frame(data@, attrs, k as int));
            }
            k = k + 1;
        }
        KittyCommand { cmd }
    }
}

/// A control sequence: `ESC [` and a command, with the bytes that end its answer.
#[derive(Debug, Clone)]
pub struct CsiCommand {
    pub cmd: Vec<u8>,
    pub cmd_end: Vec<u8>,
}

/// The bytes `ESC [` that open a control sequence.
pub open spec fn csi_start() -> Seq<u8> {
    seq![0x1bu8, 0x5bu8]
}

impl CsiCommand {
    pub fn new(command: &str, command_end: &str) -> (r: CsiCommand)
        ensures
            r.cmd@ == csi_start() + char_bytes(command@),
            r.cmd_end@ == char_bytes(command_end@),
    {
        let mut cmd: Vec<u8> = Vec::new();
        cmd.push(0x1b);
        cmd.push(0x5b);
        let b = str_bytes(command);
        push_bytes(&mut cmd, b.as_slice());
        CsiCommand { cmd, cmd_end: str_bytes(command_end) }
    }
}

/// The request for the cursor's position; the answer ends with `R`.
pub fn get_cursor_pos() -> (r: CsiCommand)
    ensures
        r.cmd@ == csi_start() + char_bytes("6n"@),
        r.cmd_end@ == char_bytes("R"@),
{
    CsiCommand::new("6n", "R")
}

/// The command that moves the cursor to `row`, `col` (both from one): `ESC [ row ; col H`.
pub fn set_cursor_pos(row: u32, col: u32) -> (r: CsiCommand)
    ensures
        r.cmd@ == csi_start() + char_bytes(
            digits_of(row as nat) + seq![';'] + digits_of(col as nat) + seq!['H'],
        ),
        r.cmd_end@.len() == 0,
{
    let mut s = String::new();
    push_number(&mut s, row as u64);
    s.append(";");
    push_number(&mut s, col as u64);
    s.append("H");
    proof {
        reveal_strlit(";");
        reveal_strlit("H");
        reveal_strlit("");
        assert(s@ =~= digits_of(row as nat) + seq![';'] + digits_of(col as nat) + seq!['H']);
    }
    CsiCommand::new(s.as_str(), "")
}

/// The command that clears the screen: `ESC [ 2 J`.
pub fn clear_screen() -> (r: CsiCommand)
    ensures
        r.cmd@ == csi_start() + char_bytes("2J"@),
        r.cmd_end@.len() == 0,
{
    proof {
        reveal_strlit("");
    }
    CsiCommand::new("2J", "")
}

/// The value of a run of decimal digits.
pub open spec fn digits_value(s: Seq<u8>) -> int
    decreases s.len(),
{
    if s.len() == 0 {
        0
    } else {
        10 * digits_value(s.drop_last()) + (s.last() - 48)
    }
}

pub open spec fn is_ascii_digit(b: u8) -> bool {
    48 <= b <= 57
}

/// `s` is a number that fits in `u32`: one or more digits.
pub open spec fn is_u32_text(s: Seq<u8>) -> bool {
    &&& s.len() > 0
    &&& forall|i: int| 0 <= i < s.len() ==> is_ascii_digit(#[trigger] s[i])
    &&& digits_value(s) <= u32::MAX
}

proof fn lemma_digits_value_nonneg(s: Seq<u8>)
    requires
        forall|i: int| 0 <= i < s.len() ==> is_ascii_digit(#[trigger] s[i]),
    ensures
        digits_value(s) >= 0,
        s.len() > 0 ==> digits_value(s) >= digits_value(s.drop_last()),
    decreases s.len(),
{
    if s.len() > 0 {
        assert forall|i: int| 0 <= i < s.len() - 1 implies is_ascii_digit(#[trigger] s.drop_last()[i]) by {
            assert(s.drop_last()[i] == s[i]);
        }
        lemma_digits_value_nonneg(s.drop_last());
    }
}

/// The number that `s` spells, when it is one that fits in `u32`.
pub fn parse_u32(s: &[u8]) -> (r: Option<u32>)
    ensures
        r is Some <==> is_u32_text(s@),
        r is Some ==> r->0 == digits_value(s@),
{
    if s.len() == 0 {
        return None;
    }
    let mut v: u64 = 0;
    let mut i: usize = 0;
    while i < s.len()
        invariant
            i <= s@.len(),
            forall|k: int| 0 <= k < i ==> is_ascii_digit(#[trigger] s@[k]),
            v == digits_value(s@.subrange(0, i as int)),
            v <= u32::MAX,
        decreases s@.len() - i,
    {
        let b = s[i];
        proof {
            assert(s@.subrange(0, i + 1).drop_last() == s@.subrange(0, i as int));
            assert(s@.subrange(0, i + 1).last() == b);
        }
        if b < 48 || b > 57 {
            proof {
                assert(!is_ascii_digit(s@[i as int]));
            }
            return None;
        }
        let nv = v * 10 + (b - 48) as u64;
        if nv > u32::MAX as u64 {
            proof {
                if is_u32_text(s@) {
                    lemma_prefix_value_le(s@, i as int + 1);
                }
            }
            return None;
        }
        v = nv;
        i = i + 1;
    }
    proof {
        assert(s@.subrange(0, s@.len() as int) == s@);
    }
    Some(v as u32)
}

/// The value of a prefix of digits is at most that of the whole.
proof fn lemma_prefix_value_le(s: Seq<u8>, k: int)
    requires
        0 <= k <= s.len(),
        forall|i: int| 0 <= i < s.len() ==> is_ascii_digit(#[trigger] s[i]),
    ensures
        digits_value(s.subrange(0, k)) <= digits_value(s),
    decreases s.len() - k,
{
    if k < s.len() {
        lemma_prefix_value_le(s, k + 1);
        let t = s.subrange(0, k + 1);
        assert(t.drop_last() == s.subrange(0, k));
        assert forall|i: int| 0 <= i < t.len() implies is_ascii_digit(#[trigger] t[i]) by {
            assert(t[i] == s[i]);
        }
        lemma_digits_value_nonneg(t);
    } else {
        assert(s.subrange(0, k) == s);
    }
}

/// The position in the body of a cursor-position answer, `row;col` (without `ESC [` and
/// `R`); `None` when it is not two numbers joined by one `;`.
pub fn parse_cursor_pos(resp: &[u8]) -> (r: Option<TermPosition>)
    ensures
        r is Some <==> exists|k: int|
            0 <= k < resp@.len() && resp@[k] == 0x3b && is_u32_text(#[trigger] resp@.subrange(0, k))
                && is_u32_text(resp@.subrange(k + 1, resp@.len() as int)),
        r is Some ==> exists|k: int|
            0 <= k < resp@.len() && resp@[k] == 0x3b && r->0.row == digits_value(
                #[trigger] resp@.subrange(0, k),
            ) && r->0.col == digits_value(resp@.subrange(k + 1, resp@.len() as int)),
{
    let mut k: usize = 0;
    while k < resp.len() && resp[k] != 0x3b
        invariant
            k <= resp@.len(),
            forall|j: int| 0 <= j < k ==> resp@[j] != 0x3b,
        decreases resp@.len() - k,
    {
        k = k + 1;
    }
    if k == resp.len() {
        proof {
            assert forall|j: int| 0 <= j < resp@.len() implies !(resp@[j] == 0x3b) by {}
        }
        return None;
    }
    let row = parse_u32(vstd::slice::slice_subrange(resp, 0, k));
    let col = parse_u32(vstd::slice::slice_subrange(resp, k + 1, resp.len()));
    proof {
        assert forall|j: int|
            0 <= j < resp@.len() && resp@[j] == 0x3b && j != k implies !is_u32_text(
                #[trigger] resp@.subrange(0, j),
            ) || !is_u32_text(resp@.subrange(j + 1, resp@.len() as int)) by {
            if j > k {
                assert(resp@.subrange(0, j)[k as int] == 0x3b);
            } else {
                assert(resp@.subrange(j + 1, resp@.len() as int)[k - j - 1] == 0x3b);
            }
        }
    }
    match (row, col) {
        (Some(row), Some(col)) => Some(TermPosition { row, col }),
        _ => None,
    }
}

} // verus!
