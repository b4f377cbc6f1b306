//! Discovery of the engine's text object class in a loaded CatSystem2 image: the methods
//! and members are read off the machine code that the command table and the RTTI lead to.
//! Two narrow MSVC x86 profiles are recognised (the classic one in `catsystem2_classic`);
//! anything ambiguous is refused.
use vstd::prelude::*;
use vstd::string::StringSliceAdditionalSpecFns;
use crate::catsystem2::Profile;
use crate::ordered::{ascending_usize, ascending_values_usize, lemma_ascending_usize_unique};
use crate::catsystem2_image::{
    image_bytes, image_code, image_fits, image_word, occurrences_from, table_named, unique_table, Image, Shape,
    HISTORY_OBJECT_TYPE, TEXT_OBJECT_TYPE,
};
use crate::catsystem2_classic::{
    classic_frame, classic_shape, lemma_classic_setter_shapes_member, lemma_destroyed_members_plausible,
    CLASSIC_OBJECT_TYPE,
};
use crate::x86::{
    body_from, decode_body, decode_listing, listing, until_exit, Decoded, MN_CALL, MN_JNE, MN_LEA, MN_MOV, MN_POP,
    MN_PUSH, MN_RET, OP_IMMEDIATE32, OP_MEMORY, OP_NEAR_BRANCH32, OP_REGISTER, REG_AL, REG_CL, REG_EAX, REG_EBP,
    REG_ECX, REG_ESP, REG_NONE,
};

verus! {

/// The end of the first executable range, from the `k`-th on, that holds `at`.
pub open spec fn range_end_from(img: Image, at: int, k: int) -> Option<int>
    decreases img.executable@.len() - k,
{
    if k < 0 || k >= img.executable@.len() {
        None
    } else if img.executable@[k].0 <= at < img.executable@[k].1 {
        Some(img.executable@[k].1 as int)
    } else {
        range_end_from(img, at, k + 1)
    }
}

/// The function body at `at`, decoded from at most `limit` bytes that stay inside the
/// executable range holding `at`: up to its first `ret`, or `None` when `at` is not code,
/// the bytes are missing, or an invalid instruction or `int3` comes first.
pub open spec fn code_at(img: Image, at: int, limit: int) -> Option<Seq<Decoded>> {
    match range_end_from(img, at, 0) {
        None => None,
        Some(end) => match image_bytes(img, at, if limit < end - at { limit } else { end - at }) {
            None => None,
            Some(code) => body_from(code, at, 0),
        },
    }
}

/// The view of an optional listing.
pub open spec fn listing_view(r: Option<Vec<Decoded>>) -> Option<Seq<Decoded>> {
    match r {
        Some(v) => Some(v@),
        None => None,
    }
}

/// The body ends in `ret bytes`.
pub open spec fn returns_with(c: Seq<Decoded>, bytes: u16) -> bool {
    c.len() > 0 && c.last().mnemonic == MN_RET && c.last().op_count == 1 && c.last().immediate16 == bytes
}

/// A `mov [..+member], eax`.
pub open spec fn stores_eax_at(d: Decoded, member: usize) -> bool {
    d.mnemonic == MN_MOV && d.op0_kind == OP_MEMORY && d.displacement as usize == member && d.op1_register == REG_EAX
}

/// A byte store from `al` or `cl`.
pub open spec fn stores_byte(d: Decoded) -> bool {
    d.mnemonic == MN_MOV && d.op0_kind == OP_MEMORY && (d.op1_register == REG_AL || d.op1_register == REG_CL)
}

/// A backward `jne`: a copy loop.
pub open spec fn loops_back(d: Decoded) -> bool {
    d.mnemonic == MN_JNE && d.near_branch_target < d.ip
}

/// A method that fills the character buffer at `member`: it returns with `ret 4`, stores the
/// buffer pointer from `eax`, stores bytes, and loops back.
pub open spec fn fills_buffer(c: Seq<Decoded>, member: usize) -> bool {
    &&& returns_with(c, 4)
    &&& exists|k: int| 0 <= k < c.len() && stores_eax_at(#[trigger] c[k], member)
    &&& exists|k: int| 0 <= k < c.len() && stores_byte(#[trigger] c[k])
    &&& exists|k: int| 0 <= k < c.len() && loops_back(#[trigger] c[k])
}

/// A `mov dword [ecx+member], value` with a plausible member offset: the offset.
pub open spec fn immediate_member(d: Decoded, value: u32) -> Option<usize> {
    let member = d.displacement as usize;
    if d.mnemonic == MN_MOV && d.op0_kind == OP_MEMORY && d.memory_base == REG_ECX && d.memory_index == REG_NONE
        && d.op1_kind == OP_IMMEDIATE32 && d.immediate32 == value && 4 <= member <= 8192 && member % 4 == 0 {
        Some(member)
    } else {
        None
    }
}

/// The display helper of the UTF-8 profile: `push ebp; mov ebp, esp; mov eax, [ebp+8];
/// mov [ecx+limit], eax;` two flag stores `mov dword [ecx+..], 1`, `pop ebp; ret 4`. Its
/// three distinct members `(limit, dirty, glyphs)`.
pub open spec fn show_members(c: Seq<Decoded>) -> Option<(usize, usize, usize)> {
    if c.len() != 8 || !returns_with(c, 4) || c[0].mnemonic != MN_PUSH || c[0].op0_register != REG_EBP
        || c[1].mnemonic != MN_MOV || c[1].op0_register != REG_EBP || c[1].op1_register != REG_ESP
        || c[2].mnemonic != MN_MOV || c[2].op0_register != REG_EAX || c[2].op1_kind != OP_MEMORY
        || c[2].memory_base != REG_EBP || c[2].displacement != 8 || c[2].memory_index != REG_NONE
        || c[3].mnemonic != MN_MOV || c[3].op0_kind != OP_MEMORY || c[3].memory_base != REG_ECX
        || c[3].memory_index != REG_NONE || c[3].op1_register != REG_EAX || c[6].mnemonic != MN_POP
        || c[6].op0_register != REG_EBP {
        None
    } else {
        let limit = c[3].displacement as usize;
        match (immediate_member(c[4], 1), immediate_member(c[5], 1)) {
            (Some(dirty), Some(glyphs)) => if 4 <= limit <= 8192 && limit % 4 == 0 && limit != dirty && limit != glyphs
                && dirty != glyphs {
                Some((limit, dirty, glyphs))
            } else {
                None
            },
            _ => None,
        }
    }
}

/// `name` padded with zero bytes to the 16-byte name field of a command table entry.
pub open spec fn padded_name(name: Seq<u8>) -> Seq<u8> {
    name + Seq::new((16 - name.len()) as nat, |i: int| 0u8)
}

/// The handlers of the command table entries at `occ[i..]` (each a padded name) whose next
/// entry is named `next`, as far as they point into code.
pub open spec fn handler_targets(img: Image, occ: Seq<usize>, next: Seq<u8>, i: int) -> Seq<usize>
    decreases occ.len() - i,
{
    if i < 0 || i >= occ.len() {
        Seq::empty()
    } else {
        let rest = handler_targets(img, occ, next, i + 1);
        if image_bytes(img, occ[i] + 20, next.len() as int) == Some(next) {
            match image_word(img, occ[i] + 16) {
                Some(p) => if image_code(img, p) { seq![p as usize] + rest } else { rest },
                None => rest,
            }
        } else {
            rest
        }
    }
}

/// The body of the script command `name` (followed in the table by `next`): the one handler
/// the table gives, decoded, ending in `ret 16`.
pub open spec fn handler_code(img: Image, name: Seq<u8>, next: Seq<u8>) -> Option<Seq<Decoded>> {
    match unique_table(handler_targets(img, occurrences_from(img, padded_name(name), 0), next, 0)) {
        None => None,
        Some(h) => match code_at(img, h as int, 4096) {
            Some(c) => if returns_with(c, 16) { Some(c) } else { None },
            None => None,
        },
    }
}

/// A direct `call rel32`.
pub open spec fn is_call(d: Decoded) -> bool {
    d.mnemonic == MN_CALL && d.op0_kind == OP_NEAR_BRANCH32
}

/// The targets of the direct calls in `c[k..]`, in order.
pub open spec fn call_targets(c: Seq<Decoded>, k: int) -> Seq<usize>
    decreases c.len() - k,
{
    if k < 0 || k >= c.len() {
        Seq::empty()
    } else if is_call(c[k]) {
        seq![c[k].near_branch_target as usize] + call_targets(c, k + 1)
    } else {
        call_targets(c, k + 1)
    }
}

/// The UTF-8 command pattern at `k`: `lea r, [ebp+..]; mov ecx, reg; push r; call method`
/// with the method in code.
pub open spec fn command_call_at(img: Image, c: Seq<Decoded>, k: int) -> bool {
    let (address, receiver, argument, call) = (c[k], c[k + 1], c[k + 2], c[k + 3]);
    &&& address.mnemonic == MN_LEA && address.memory_base == REG_EBP
    &&& receiver.mnemonic == MN_MOV && receiver.op0_register == REG_ECX && receiver.op1_kind == OP_REGISTER
    &&& argument.mnemonic == MN_PUSH && argument.op0_register == address.op0_register
    &&& is_call(call) && image_code(img, (call.near_branch_target as usize) as int)
}

/// The methods the command pattern calls in `c[k..]`, in order.
pub open spec fn command_targets(img: Image, c: Seq<Decoded>, k: int) -> Seq<usize>
    decreases c.len() - k,
{
    if k < 0 || k + 4 > c.len() {
        Seq::empty()
    } else if command_call_at(img, c, k) {
        seq![c[k + 3].near_branch_target as usize] + command_targets(img, c, k + 1)
    } else {
        command_targets(img, c, k + 1)
    }
}

/// The values of `s`, each once, in ascending order (as a `BTreeSet` walks them).
pub open spec fn ascending_distinct(s: Seq<usize>) -> Seq<usize> {
    choose|r: Seq<usize>| ascending_usize(r) && r.to_set() == s.to_set()
}

/// The methods a script command calls on the text object: one to eight distinct ones.
pub open spec fn command_methods(img: Image, name: Seq<u8>, next: Seq<u8>) -> Option<Seq<usize>> {
    match handler_code(img, name, next) {
        None => None,
        Some(c) => {
            let d = ascending_distinct(command_targets(img, c, 0));
            if 1 <= d.len() <= 8 { Some(d) } else { None }
        },
    }
}

/// The command that appends the terminal marker.
pub const APPEND_MARK_COMMAND: &'static str = "apendmark";
/// The command after it in the table.
pub const CLEAR_COMMAND: &'static str = "clear";
/// The command that skips the running text.
pub const SKIP_COMMAND: &'static str = "skip";
/// The command after it in the table.
pub const REFEX_COMMAND: &'static str = "refex";
/// The command that sets the text.
pub const STR_COMMAND: &'static str = "str";
/// The command after it in the table.
pub const RESET_COMMAND: &'static str = "reset";
/// The command that appends text.
pub const APPEND_COMMAND: &'static str = "apend";

/// The one value of `c`, when all its entries are that value.
pub open spec fn sole<T>(c: Seq<T>) -> Option<T> {
    if c.len() > 0 && forall|k: int| 0 <= k < c.len() ==> #[trigger] c[k] == c[0] { Some(c[0]) } else { None }
}

/// The UTF-8 marker command: `push ebp; mov ebp, esp; push ecx; push marker; call append;
/// mov esp, ebp; pop ebp; ret`, pushing the address of the bytes `FF FF 00`.
pub open spec fn marker_body(img: Image, b: Seq<Decoded>, append: usize) -> bool {
    &&& b.len() == 8
    &&& b[0].mnemonic == MN_PUSH && b[0].op0_register == REG_EBP
    &&& b[1].mnemonic == MN_MOV && b[1].op0_register == REG_EBP && b[1].op1_register == REG_ESP
    &&& b[2].mnemonic == MN_PUSH && b[2].op0_register == REG_ECX
    &&& b[3].mnemonic == MN_PUSH && b[3].op0_kind == OP_IMMEDIATE32
    &&& image_bytes(img, b[3].immediate32 as int, 3) == Some(seq![255u8, 255u8, 0u8])
    &&& is_call(b[4]) && b[4].near_branch_target as usize == append
    &&& b[5].mnemonic == MN_MOV && b[5].op0_register == REG_ESP && b[5].op1_register == REG_EBP
    &&& b[6].mnemonic == MN_POP && b[6].op0_register == REG_EBP
    &&& b[7].mnemonic == MN_RET && b[7].op_count == 0
}

/// A `mov dword [..+glyphs], -1`: the setter resets the glyph count.
pub open spec fn resets_glyphs(d: Decoded, glyphs: usize) -> bool {
    d.mnemonic == MN_MOV && d.op0_kind == OP_MEMORY && d.displacement as usize == glyphs && d.op1_kind == OP_IMMEDIATE32
        && d.immediate32 == u32::MAX
}

/// The finishing helper at `finish`, shortly after `show`: `mov dword [ecx+flag], 1; ret`
/// with a flag apart from the display members `m`.
pub open spec fn finish_helper(img: Image, finish: usize, show: usize, m: (usize, usize, usize)) -> bool {
    finish > show && finish - show <= 256 && match code_at(img, finish as int, 16) {
        Some(c) => c.len() == 2 && match immediate_member(c[0], 1) {
            Some(flag) => flag != m.0 && flag != m.1 && flag != m.2,
            None => false,
        } && c[1].mnemonic == MN_RET && c[1].op_count == 0,
        None => false,
    }
}

/// The `(show, finish)` pairs with finishing helpers among the calls `fcalls[j..]`.
pub open spec fn finish_pairs(img: Image, fcalls: Seq<usize>, show: usize, m: (usize, usize, usize), j: int) -> Seq<
    (usize, usize),
>
    decreases fcalls.len() - j,
{
    if j < 0 || j >= fcalls.len() {
        Seq::empty()
    } else if finish_helper(img, fcalls[j], show, m) {
        seq![(show, fcalls[j])] + finish_pairs(img, fcalls, show, m, j + 1)
    } else {
        finish_pairs(img, fcalls, show, m, j + 1)
    }
}

/// The `(show, finish)` pairs whose display helper starts `offset..32` bytes after `end`,
/// with a glyph member the setter resets.
pub open spec fn show_pairs(img: Image, setter: Seq<Decoded>, fcalls: Seq<usize>, end: usize, offset: int) -> Seq<
    (usize, usize),
>
    decreases 32 - offset,
{
    if offset < 0 || offset >= 32 {
        Seq::empty()
    } else {
        let rest = show_pairs(img, setter, fcalls, end, offset + 1);
        let show = end + offset;
        if show > usize::MAX {
            rest
        } else {
            match code_at(img, show, 64) {
                None => rest,
                Some(c) => match show_members(c) {
                    None => rest,
                    Some(m) => if exists|k: int| 0 <= k < setter.len() && resets_glyphs(#[trigger] setter[k], m.2) {
                        finish_pairs(img, fcalls, show as usize, m, 0) + rest
                    } else {
                        rest
                    },
                },
            }
        }
    }
}

/// The `(show, finish)` pairs found behind the marker commands `mcalls[i..]` that call `append`.
pub open spec fn marker_pairs(
    img: Image,
    append: usize,
    setter: Seq<Decoded>,
    mcalls: Seq<usize>,
    fcalls: Seq<usize>,
    i: int,
) -> Seq<(usize, usize)>
    decreases mcalls.len() - i,
{
    if i < 0 || i >= mcalls.len() {
        Seq::empty()
    } else {
        let rest = marker_pairs(img, append, setter, mcalls, fcalls, i + 1);
        match code_at(img, mcalls[i] as int, 64) {
            Some(b) => if marker_body(img, b, append) {
                show_pairs(img, setter, fcalls, b.last().next_ip as usize, 0) + rest
            } else {
                rest
            },
            None => rest,
        }
    }
}

/// The display and finishing helpers of the UTF-8 profile for the append method `append`
/// and the setter body `setter`: the one pair the marker and skip commands lead to.
pub open spec fn display_methods(img: Image, append: usize, setter: Seq<Decoded>) -> Option<(usize, usize)> {
    match handler_code(img, APPEND_MARK_COMMAND.spec_bytes(), CLEAR_COMMAND.spec_bytes()) {
        None => None,
        Some(marker) => match handler_code(img, SKIP_COMMAND.spec_bytes(), REFEX_COMMAND.spec_bytes()) {
            None => None,
            Some(skip) => sole(marker_pairs(img, append, setter, call_targets(marker, 0), call_targets(skip, 0), 0)),
        },
    }
}

/// The class-wide parts of a UTF-8 profile shape.
#[derive(Clone, Copy, Debug, PartialEq, Eq)]
pub struct Utf8Frame {
    pub table: usize,
    pub history: Option<(usize, usize)>,
    pub destroy: usize,
    pub tick: usize,
}

/// The history (log) text class, when its table and a tick method ending in `ret 4` are there.
pub open spec fn utf8_history(img: Image) -> Option<(usize, usize)> {
    match table_named(img, HISTORY_OBJECT_TYPE.spec_bytes(), 4) {
        None => None,
        Some(t) => match image_word(img, t + 8) {
            None => None,
            Some(tick) => match code_at(img, tick, 4096) {
                Some(c) => if returns_with(c, 4) { Some((t, tick as usize)) } else { None },
                None => None,
            },
        },
    }
}

/// A `mov dword [..+0], table`: the destructor restores the class's table.
pub open spec fn writes_table(d: Decoded, table: usize) -> bool {
    d.mnemonic == MN_MOV && d.op0_kind == OP_MEMORY && d.displacement == 0 && d.op1_kind == OP_IMMEDIATE32
        && d.immediate32 as usize == table
}

/// A `mov .., [..+member]`: a read of the member.
pub open spec fn reads_member(d: Decoded, member: usize) -> bool {
    d.mnemonic == MN_MOV && d.op1_kind == OP_MEMORY && d.displacement as usize == member
}

/// The first direct call target of `c`.
pub open spec fn first_call(c: Seq<Decoded>) -> Option<usize> {
    if call_targets(c, 0).len() > 0 { Some(call_targets(c, 0)[0]) } else { None }
}

/// What the UTF-8 class gives before the method search: its frame, the first 64
/// instructions of its destructor, and the setter and append methods of its commands.
pub open spec fn utf8_frame(img: Image) -> Option<(Utf8Frame, Seq<Decoded>, Seq<usize>, Seq<usize>)> {
    match table_named(img, TEXT_OBJECT_TYPE.spec_bytes(), 4) {
        None => None,
        Some(table) => match image_word(img, table as int) {
            None => None,
            Some(first) => match code_at(img, first, 128) {
                None => None,
                Some(deleting) => match first_call(deleting) {
                    None => None,
                    Some(destroy) => match image_bytes(img, destroy as int, 256) {
                        None => None,
                        Some(bytes) => {
                            let dcode = listing(bytes, destroy as int, 0, 64);
                            match image_word(img, table + 8) {
                                None => None,
                                Some(tick) => match code_at(img, tick, 4096) {
                                    None => None,
                                    Some(tc) => match (
                                        command_methods(img, STR_COMMAND.spec_bytes(), RESET_COMMAND.spec_bytes()),
                                        command_methods(img, APPEND_COMMAND.spec_bytes(), APPEND_MARK_COMMAND.spec_bytes()),
                                    ) {
                                        (Some(setters), Some(appenders)) => if returns_with(deleting, 4) && returns_with(tc, 4)
                                            && exists|k: int| 0 <= k < dcode.len() && writes_table(#[trigger] dcode[k], table) {
                                            Some((
                                                Utf8Frame { table, history: utf8_history(img), destroy, tick: tick as usize },
                                                dcode,
                                                setters,
                                                appenders,
                                            ))
                                        } else {
                                            None
                                        },
                                        _ => None,
                                    },
                                },
                            }
                        },
                    },
                },
            },
        },
    }
}

/// The member a two-instruction getter at `at` reads: `mov eax, [ecx+member]; ret` (or
/// `ret 0`), with a plausible member offset.
pub open spec fn getter_member(img: Image, at: int) -> Option<usize> {
    match image_bytes(img, at, 10) {
        None => None,
        Some(bytes) => {
            let g = listing(bytes, 0, 0, 2);
            let member = g[0].displacement as usize;
            if g.len() == 2 && g[0].mnemonic == MN_MOV && g[0].op0_register == REG_EAX && g[0].op1_kind == OP_MEMORY
                && g[0].memory_base == REG_ECX && g[0].memory_index == REG_NONE && g[1].mnemonic == MN_RET && (
            g[1].op_count == 0 || g[1].immediate16 == 0) && 4 <= member <= 8192 && member % 4 == 0 {
                Some(member)
            } else {
                None
            }
        },
    }
}

/// The UTF-8 shapes for `append` and `member` with the setters `setters[k..]` that fill the
/// same buffer and lead to display helpers.
pub open spec fn setter_shapes(img: Image, f: Utf8Frame, append: usize, member: usize, setters: Seq<usize>, k: int) -> Seq<
    Shape,
>
    decreases setters.len() - k,
{
    if k < 0 || k >= setters.len() {
        Seq::empty()
    } else {
        let rest = setter_shapes(img, f, append, member, setters, k + 1);
        match code_at(img, setters[k] as int, 1024) {
            None => rest,
            Some(set) => if fills_buffer(set, member) {
                match display_methods(img, append, set) {
                    Some((show, finish)) => seq![
                        Shape {
                            profile: Profile::Utf8,
                            table: f.table,
                            setter: setters[k],
                            append,
                            destroy: f.destroy,
                            tick: f.tick,
                            text_member: member,
                            show,
                            finish,
                            history: f.history,
                        },
                    ] + rest,
                    None => rest,
                }
            } else {
                rest
            },
        }
    }
}

/// The UTF-8 shapes for the append method `append` (body `body`, ending at `end`) whose
/// getter lies `skip..32` bytes after it.
pub open spec fn getter_shapes(
    img: Image,
    f: Utf8Frame,
    dcode: Seq<Decoded>,
    setters: Seq<usize>,
    append: usize,
    body: Seq<Decoded>,
    end: usize,
    skip: int,
) -> Seq<Shape>
    decreases 32 - skip,
{
    if skip < 0 || skip >= 32 {
        Seq::empty()
    } else {
        let rest = getter_shapes(img, f, dcode, setters, append, body, end, skip + 1);
        match getter_member(img, end + skip) {
            None => rest,
            Some(member) => if (exists|k: int| 0 <= k < dcode.len() && reads_member(#[trigger] dcode[k], member))
                && fills_buffer(body, member) {
                setter_shapes(img, f, append, member, setters, 0) + rest
            } else {
                rest
            },
        }
    }
}

/// The UTF-8 shapes for the append methods `appenders[i..]`.
pub open spec fn append_shapes(
    img: Image,
    f: Utf8Frame,
    dcode: Seq<Decoded>,
    setters: Seq<usize>,
    appenders: Seq<usize>,
    i: int,
) -> Seq<Shape>
    decreases appenders.len() - i,
{
    if i < 0 || i >= appenders.len() {
        Seq::empty()
    } else {
        let rest = append_shapes(img, f, dcode, setters, appenders, i + 1);
        match code_at(img, appenders[i] as int, 1024) {
            Some(body) => if returns_with(body, 4) {
                getter_shapes(img, f, dcode, setters, appenders[i], body, body.last().next_ip as usize, 0) + rest
            } else {
                rest
            },
            None => rest,
        }
    }
}

/// The shape of the UTF-8 profile: the one the image's code supports, if exactly one.
pub open spec fn utf8_shape(img: Image) -> Option<Shape> {
    match utf8_frame(img) {
        None => None,
        Some((f, dcode, setters, appenders)) => sole(append_shapes(img, f, dcode, setters, appenders, 0)),
    }
}

/// The shape of the engine's text class: the UTF-8 profile's, else the classic one's.
pub open spec fn discovered_shape(img: Image) -> Option<Shape> {
    match utf8_shape(img) {
        Some(s) => Some(s),
        None => classic_shape(img),
    }
}

/// A member offset the discovery accepts: 4 to 8192 bytes into the object, 4-aligned.
pub open spec fn plausible_member(m: usize) -> bool {
    4 <= m <= 8192 && m % 4 == 0
}

proof fn lemma_setter_shapes_member(img: Image, f: Utf8Frame, append: usize, member: usize, setters: Seq<usize>, k: int)
    ensures
        forall|j: int| 0 <= j < setter_shapes(img, f, append, member, setters, k).len() ==> (#[trigger] setter_shapes(
            img,
            f,
            append,
            member,
            setters,
            k,
        )[j]).text_member == member && setter_shapes(img, f, append, member, setters, k)[j].profile == Profile::Utf8,
    decreases setters.len() - k,
{
    if 0 <= k < setters.len() {
        lemma_setter_shapes_member(img, f, append, member, setters, k + 1);
    }
}

proof fn lemma_getter_shapes_member(
    img: Image,
    f: Utf8Frame,
    dcode: Seq<Decoded>,
    setters: Seq<usize>,
    append: usize,
    body: Seq<Decoded>,
    end: usize,
    skip: int,
)
    ensures
        forall|j: int| 0 <= j < getter_shapes(img, f, dcode, setters, append, body, end, skip).len() ==> plausible_member(
            (#[trigger] getter_shapes(img, f, dcode, setters, append, body, end, skip)[j]).text_member,
        ) && getter_shapes(img, f, dcode, setters, append, body, end, skip)[j].profile == Profile::Utf8,
    decreases 32 - skip,
{
    if 0 <= skip < 32 {
        lemma_getter_shapes_member(img, f, dcode, setters, append, body, end, skip + 1);
        if let Some(member) = getter_member(img, end + skip) {
            lemma_setter_shapes_member(img, f, append, member, setters, 0);
        }
    }
}

proof fn lemma_append_shapes_member(
    img: Image,
    f: Utf8Frame,
    dcode: Seq<Decoded>,
    setters: Seq<usize>,
    appenders: Seq<usize>,
    i: int,
)
    ensures
        forall|j: int| 0 <= j < append_shapes(img, f, dcode, setters, appenders, i).len() ==> plausible_member(
            (#[trigger] append_shapes(img, f, dcode, setters, appenders, i)[j]).text_member,
        ) && append_shapes(img, f, dcode, setters, appenders, i)[j].profile == Profile::Utf8,
    decreases appenders.len() - i,
{
    if 0 <= i < appenders.len() {
        lemma_append_shapes_member(img, f, dcode, setters, appenders, i + 1);
        if let Some(body) = code_at(img, appenders[i] as int, 1024) {
            if returns_with(body, 4) {
                lemma_getter_shapes_member(img, f, dcode, setters, appenders[i], body, body.last().next_ip as usize, 0);
            }
        }
    }
}

/// Discovery answers a shape only when the code supports exactly one: two different
/// candidates make it refuse.
pub proof fn law_ambiguity_is_refused(c: Seq<Shape>, i: int, j: int)
    requires
        0 <= i < c.len(),
        0 <= j < c.len(),
        c[i] != c[j],
    ensures
        sole(c) is None,
{
    if sole(c) is Some {
        assert(c[i] == c[0] && c[j] == c[0]);
    }
}

/// A discovered shape's text member is a plausible member offset, and its profile is the
/// one whose code led to it: the UTF-8 profile's shape wins when there is one.
pub proof fn law_discovered_shapes_are_plausible(img: Image)
    ensures
        discovered_shape(img) matches Some(s) ==> plausible_member(s.text_member),
        utf8_shape(img) matches Some(s) ==> s.profile == Profile::Utf8 && discovered_shape(img) == Some(s),
        utf8_shape(img) is None ==> discovered_shape(img) == classic_shape(img),
        classic_shape(img) matches Some(s) ==> s.profile == Profile::Classic && s.history is None,
{
    if let Some((f, dcode, setters, appenders)) = utf8_frame(img) {
        lemma_append_shapes_member(img, f, dcode, setters, appenders, 0);
    }
    if let Some((cf, members, setters, appends, marker, skip)) = classic_frame(img) {
        assert(forall|j: int| 0 <= j < members.len() ==> plausible_member(#[trigger] members[j])) by {
            let table = table_named(img, CLASSIC_OBJECT_TYPE.spec_bytes(), 3)->0;
            let first = image_word(img, table as int)->0;
            let deleting = code_at(img, first, 128)->0;
            let destroy = first_call(deleting)->0;
            let bytes = image_bytes(img, destroy as int, 128)->0;
            lemma_destroyed_members_plausible(until_exit(bytes, destroy as int, 0), 0);
        }
        lemma_classic_setter_shapes_member(img, cf, skip, marker, appends, members, setters, 0);
    }
}

/// Whether the body `c` ends in `ret bytes`.
pub fn ends_in_ret(c: &Vec<Decoded>, bytes: u16) -> (r: bool)
    ensures
        r == returns_with(c@, bytes),
{
    if c.len() == 0 {
        return false;
    }
    let last = c[c.len() - 1];
    last.mnemonic == MN_RET && last.op_count == 1 && last.immediate16 == bytes
}

/// Whether the body `c` fills the character buffer at `member`.
pub fn buffer_method(c: &Vec<Decoded>, member: usize) -> (r: bool)
    ensures
        r == fills_buffer(c@, member),
{
    if !ends_in_ret(c, 4) {
        return false;
    }
    let mut eax = false;
    let mut byte = false;
    let mut back = false;
    let mut k: usize = 0;
    while k < c.len()
        invariant
            k <= c@.len(),
            eax == exists|j: int| 0 <= j < k && stores_eax_at(#[trigger] c@[j], member),
            byte == exists|j: int| 0 <= j < k && stores_byte(#[trigger] c@[j]),
            back == exists|j: int| 0 <= j < k && loops_back(#[trigger] c@[j]),
        decreases c.len() - k,
    {
        let d = c[k];
        if d.mnemonic == MN_MOV && d.op0_kind == OP_MEMORY && d.displacement as usize == member
            && d.op1_register == REG_EAX {
            eax = true;
        }
        if d.mnemonic == MN_MOV && d.op0_kind == OP_MEMORY && (d.op1_register == REG_AL || d.op1_register == REG_CL) {
            byte = true;
        }
        if d.mnemonic == MN_JNE && d.near_branch_target < d.ip {
            back = true;
        }
        proof {
            assert(stores_eax_at(c@[k as int], member) ==> (exists|j: int| 0 <= j < k + 1 && stores_eax_at(
                #[trigger] c@[j], member)));
            assert(stores_byte(c@[k as int]) ==> (exists|j: int| 0 <= j < k + 1 && stores_byte(#[trigger] c@[j])));
            assert(loops_back(c@[k as int]) ==> (exists|j: int| 0 <= j < k + 1 && loops_back(#[trigger] c@[j])));
        }
        k += 1;
    }
    eax && byte && back
}

fn immediate_member_exec(d: Decoded, value: u32) -> (r: Option<usize>)
    ensures
        r == immediate_member(d, value),
{
    let member = d.displacement as usize;
    if d.mnemonic == MN_MOV && d.op0_kind == OP_MEMORY && d.memory_base == REG_ECX && d.memory_index == REG_NONE
        && d.op1_kind == OP_IMMEDIATE32 && d.immediate32 == value && 4 <= member && member <= 8192
        && member % 4 == 0 {
        Some(member)
    } else {
        None
    }
}

fn show_members_exec(c: &Vec<Decoded>) -> (r: Option<(usize, usize, usize)>)
    ensures
        r == show_members(c@),
{
    if c.len() != 8 || !ends_in_ret(c, 4) {
        return None;
    }
    if c[0].mnemonic != MN_PUSH || c[0].op0_register != REG_EBP || c[1].mnemonic != MN_MOV
        || c[1].op0_register != REG_EBP || c[1].op1_register != REG_ESP || c[2].mnemonic != MN_MOV
        || c[2].op0_register != REG_EAX || c[2].op1_kind != OP_MEMORY || c[2].memory_base != REG_EBP
        || c[2].displacement != 8 || c[2].memory_index != REG_NONE || c[3].mnemonic != MN_MOV
        || c[3].op0_kind != OP_MEMORY || c[3].memory_base != REG_ECX || c[3].memory_index != REG_NONE
        || c[3].op1_register != REG_EAX || c[6].mnemonic != MN_POP || c[6].op0_register != REG_EBP {
        return None;
    }
    let limit = c[3].displacement as usize;
    match (immediate_member_exec(c[4], 1), immediate_member_exec(c[5], 1)) {
        (Some(dirty), Some(glyphs)) => if 4 <= limit && limit <= 8192 && limit % 4 == 0 && limit != dirty
            && limit != glyphs && dirty != glyphs {
            Some((limit, dirty, glyphs))
        } else {
            None
        },
        _ => None,
    }
}

pub(crate) fn call_targets_exec(c: &Vec<Decoded>) -> (r: Vec<usize>)
    ensures
        r@ == call_targets(c@, 0),
{
    let mut out: Vec<usize> = Vec::new();
    let mut k: usize = 0;
    while k < c.len()
        invariant
            k <= c@.len(),
            call_targets(c@, 0) == out@ + call_targets(c@, k as int),
        decreases c.len() - k,
    {
        let ghost before = out@;
        let d = c[k];
        if d.mnemonic == MN_CALL && d.op0_kind == OP_NEAR_BRANCH32 {
            out.push(d.near_branch_target as usize);
            assert(before + (seq![d.near_branch_target as usize] + call_targets(c@, k + 1)) =~= out@ + call_targets(
                c@, k + 1));
        }
        k += 1;
    }
    assert(out@ + call_targets(c@, k as int) =~= out@);
    out
}

impl Image {
    fn range_end(&self, at: usize) -> (r: Option<usize>)
        ensures
            match r {
                Some(e) => range_end_from(*self, at as int, 0) == Some(e as int) && at < e,
                None => range_end_from(*self, at as int, 0) is None,
            },
    {
        let mut k: usize = 0;
        while k < self.executable.len()
            invariant
                k <= self.executable@.len(),
                range_end_from(*self, at as int, 0) == range_end_from(*self, at as int, k as int),
            decreases self.executable.len() - k,
        {
            let (start, end) = self.executable[k];
            if start <= at && at < end {
                return Some(end);
            }
            k += 1;
        }
        None
    }

    /// The function body at `at`, read from at most `limit` bytes of its executable range.
    pub fn instructions(&self, at: usize, limit: usize) -> (r: Option<Vec<Decoded>>)
        requires
            image_fits(*self),
        ensures
            listing_view(r) == code_at(*self, at as int, limit as int),
    {
        let end = match self.range_end(at) {
            Some(e) => e,
            None => return None,
        };
        let len = if limit < end - at { limit } else { end - at };
        let code = match self.read(at, len) {
            Some(c) => c,
            None => return None,
        };
        decode_body(code.as_slice(), at as u64)
    }

    fn handler_targets_exec(&self, occ: &Vec<usize>, next: &[u8]) -> (r: Vec<usize>)
        requires
            image_fits(*self),
            forall|k: int| 0 <= k < occ@.len() ==> #[trigger] occ@[k] <= self.base + self.bytes@.len(),
        ensures
            r@ == handler_targets(*self, occ@, next@, 0),
    {
        let mut out: Vec<usize> = Vec::new();
        let mut i: usize = 0;
        while i < occ.len()
            invariant
                i <= occ@.len(),
                image_fits(*self),
                forall|k: int| 0 <= k < occ@.len() ==> #[trigger] occ@[k] <= self.base + self.bytes@.len(),
                handler_targets(*self, occ@, next@, 0) == out@ + handler_targets(*self, occ@, next@, i as int),
            decreases occ.len() - i,
        {
            let ghost before = out@;
            let at = occ[i];
            let named = match self.read(at + 20, next.len()) {
                Some(b) => crate::chars::seq_eq_bytes(b.as_slice(), next),
                None => false,
            };
            if named {
                match self.word(at + 16) {
                    Some(p) => if self.code(p) {
                        out.push(p);
                        assert(before + (seq![p] + handler_targets(*self, occ@, next@, i + 1)) =~= out@
                            + handler_targets(*self, occ@, next@, i + 1));
                    },
                    None => {},
                }
            }
            i += 1;
        }
        assert(out@ + handler_targets(*self, occ@, next@, i as int) =~= out@);
        out
    }
    fn command_targets_exec(&self, c: &Vec<Decoded>) -> (r: Vec<usize>)
        ensures
            r@ == command_targets(*self, c@, 0),
    {
        let mut out: Vec<usize> = Vec::new();
        let mut k: usize = 0;
        while k < c.len() && c.len() - k >= 4
            invariant
                k <= c@.len(),
                command_targets(*self, c@, 0) == out@ + command_targets(*self, c@, k as int),
            decreases c.len() - k,
        {
            let ghost before = out@;
            let (address, receiver, argument, call) = (c[k], c[k + 1], c[k + 2], c[k + 3]);
            if address.mnemonic == MN_LEA && address.memory_base == REG_EBP && receiver.mnemonic == MN_MOV
                && receiver.op0_register == REG_ECX && receiver.op1_kind == OP_REGISTER
                && argument.mnemonic == MN_PUSH && argument.op0_register == address.op0_register
                && call.mnemonic == MN_CALL && call.op0_kind == OP_NEAR_BRANCH32
                && self.code(call.near_branch_target as usize) {
                out.push(call.near_branch_target as usize);
                assert(before + (seq![call.near_branch_target as usize] + command_targets(*self, c@, k + 1)) =~= out@
                    + command_targets(*self, c@, k + 1));
            }
            k += 1;
        }
        assert(out@ + command_targets(*self, c@, k as int) =~= out@);
        out
    }

    /// The body of the script command `name`, whose table entry is followed by `next`.
    pub fn handler(&self, name: &[u8], next: &[u8]) -> (r: Option<Vec<Decoded>>)
        requires
            image_fits(*self),
            name@.len() <= 16,
        ensures
            listing_view(r) == handler_code(*self, name@, next@),
    {
        let mut padded: Vec<u8> = Vec::new();
        crate::chars::append_all(&mut padded, name);
        while padded.len() < 16
            invariant
                padded@.len() <= 16,
                padded@.subrange(0, name@.len() as int) == name@,
                name@.len() <= padded@.len(),
                forall|j: int| name@.len() <= j < padded@.len() ==> padded@[j] == 0u8,
            decreases 16 - padded.len(),
        {
            padded.push(0u8);
            assert(padded@.subrange(0, name@.len() as int) =~= name@);
        }
        assert(padded@ =~= padded_name(name@));
        let occ = self.occurrences(&padded);
        proof {
            crate::catsystem2_image::lemma_occurrences_in_image(*self, padded@, 0);
        }
        let targets = self.handler_targets_exec(&occ, next);
        let h = match crate::catsystem2_image::sole_entry(&targets) {
            Some(h) => h,
            None => return None,
        };
        let code = match self.instructions(h, 4096) {
            Some(c) => c,
            None => return None,
        };
        if ends_in_ret(&code, 16) {
            Some(code)
        } else {
            None
        }
    }

    /// The methods the script command `name` calls on the text object.
    pub fn commands(&self, name: &[u8], next: &[u8]) -> (r: Option<Vec<usize>>)
        requires
            image_fits(*self),
            name@.len() <= 16,
        ensures
            match r {
                Some(v) => command_methods(*self, name@, next@) == Some(v@),
                None => command_methods(*self, name@, next@) is None,
            },
    {
        let c = match self.handler(name, next) {
            Some(c) => c,
            None => return None,
        };
        let targets = self.command_targets_exec(&c);
        let d = ascending_values_usize(&targets);
        proof {
            let t = command_targets(*self, c@, 0);
            assert(ascending_usize(d@) && d@.to_set() == t.to_set());
            let r = ascending_distinct(t);
            lemma_ascending_usize_unique(d@, r);
        }
        if 1 <= d.len() && d.len() <= 8 {
            Some(d)
        } else {
            None
        }
    }
}

fn sole_pair(c: &Vec<(usize, usize)>) -> (r: Option<(usize, usize)>)
    ensures
        r == sole(c@),
{
    if c.len() == 0 {
        return None;
    }
    let first = c[0];
    let mut k: usize = 0;
    while k < c.len()
        invariant
            k <= c@.len(),
            c@.len() > 0,
            first == c@[0],
            forall|j: int| 0 <= j < k ==> #[trigger] c@[j] == c@[0],
        decreases c.len() - k,
    {
        if c[k].0 != first.0 || c[k].1 != first.1 {
            assert(c@[k as int] != c@[0]);
            return None;
        }
        k += 1;
    }
    Some(first)
}

fn resets_glyphs_exec(setter: &Vec<Decoded>, glyphs: usize) -> (r: bool)
    ensures
        r == exists|k: int| 0 <= k < setter@.len() && resets_glyphs(#[trigger] setter@[k], glyphs),
{
    let mut k: usize = 0;
    while k < setter.len()
        invariant
            k <= setter@.len(),
            forall|j: int| 0 <= j < k ==> !resets_glyphs(#[trigger] setter@[j], glyphs),
        decreases setter.len() - k,
    {
        let d = setter[k];
        if d.mnemonic == MN_MOV && d.op0_kind == OP_MEMORY && d.displacement as usize == glyphs
            && d.op1_kind == OP_IMMEDIATE32 && d.immediate32 == u32::MAX {
            assert(resets_glyphs(setter@[k as int], glyphs));
            return true;
        }
        k += 1;
    }
    false
}

pub(crate) proof fn lemma_command_names()
    ensures
        APPEND_MARK_COMMAND.spec_bytes().len() <= 16,
        SKIP_COMMAND.spec_bytes().len() <= 16,
        STR_COMMAND.spec_bytes().len() <= 16,
        APPEND_COMMAND.spec_bytes().len() <= 16,
{
    reveal_strlit("apendmark");
    reveal_strlit("skip");
    reveal_strlit("str");
    reveal_strlit("apend");
    vstd::string::is_ascii_spec_bytes(APPEND_MARK_COMMAND);
    vstd::string::is_ascii_spec_bytes(SKIP_COMMAND);
    vstd::string::is_ascii_spec_bytes(STR_COMMAND);
    vstd::string::is_ascii_spec_bytes(APPEND_COMMAND);
}

impl Image {
    fn marker_body_exec(&self, b: &Vec<Decoded>, append: usize) -> (r: bool)
        requires
            image_fits(*self),
        ensures
            r == marker_body(*self, b@, append),
    {
        if b.len() != 8 {
            return false;
        }
        if b[0].mnemonic != MN_PUSH || b[0].op0_register != REG_EBP || b[1].mnemonic != MN_MOV
            || b[1].op0_register != REG_EBP || b[1].op1_register != REG_ESP || b[2].mnemonic != MN_PUSH
            || b[2].op0_register != REG_ECX || b[3].mnemonic != MN_PUSH || b[3].op0_kind != OP_IMMEDIATE32 {
            return false;
        }
        let marked = match self.read(b[3].immediate32 as usize, 3) {
            Some(m) => m.len() == 3 && m[0] == 255u8 && m[1] == 255u8 && m[2] == 0u8,
            None => false,
        };
        proof {
            if let Some(m) = image_bytes(*self, b@[3].immediate32 as int, 3) {
                if m.len() == 3 && m[0] == 255u8 && m[1] == 255u8 && m[2] == 0u8 {
                    assert(m =~= seq![255u8, 255u8, 0u8]);
                }
            }
        }
        marked && b[4].mnemonic == MN_CALL && b[4].op0_kind == OP_NEAR_BRANCH32
            && b[4].near_branch_target as usize == append && b[5].mnemonic == MN_MOV
            && b[5].op0_register == REG_ESP && b[5].op1_register == REG_EBP && b[6].mnemonic == MN_POP
            && b[6].op0_register == REG_EBP && b[7].mnemonic == MN_RET && b[7].op_count == 0
    }

    fn finish_pairs_exec(&self, fcalls: &Vec<usize>, show: usize, m: (usize, usize, usize)) -> (r: Vec<(usize, usize)>)
        requires
            image_fits(*self),
        ensures
            r@ == finish_pairs(*self, fcalls@, show, m, 0),
    {
        let mut out: Vec<(usize, usize)> = Vec::new();
        let mut j: usize = 0;
        while j < fcalls.len()
            invariant
                j <= fcalls@.len(),
                image_fits(*self),
                finish_pairs(*self, fcalls@, show, m, 0) == out@ + finish_pairs(*self, fcalls@, show, m, j as int),
            decreases fcalls.len() - j,
        {
            let ghost before = out@;
            let finish = fcalls[j];
            let ok = if finish <= show || finish - show > 256 {
                false
            } else {
                match self.instructions(finish, 16) {
                    Some(c) => c.len() == 2 && match immediate_member_exec(c[0], 1) {
                        Some(flag) => flag != m.0 && flag != m.1 && flag != m.2,
                        None => false,
                    } && c[1].mnemonic == MN_RET && c[1].op_count == 0,
                    None => false,
                }
            };
            if ok {
                out.push((show, finish));
                assert(before + (seq![(show, finish)] + finish_pairs(*self, fcalls@, show, m, j + 1)) =~= out@
                    + finish_pairs(*self, fcalls@, show, m, j + 1));
            }
            j += 1;
        }
        assert(out@ + finish_pairs(*self, fcalls@, show, m, j as int) =~= out@);
        out
    }

    fn show_pairs_exec(&self, setter: &Vec<Decoded>, fcalls: &Vec<usize>, end: usize) -> (r: Vec<(usize, usize)>)
        requires
            image_fits(*self),
        ensures
            r@ == show_pairs(*self, setter@, fcalls@, end, 0),
    {
        let mut out: Vec<(usize, usize)> = Vec::new();
        let mut offset: usize = 0;
        while offset < 32
            invariant
                offset <= 32,
                image_fits(*self),
                show_pairs(*self, setter@, fcalls@, end, 0) == out@ + show_pairs(*self, setter@, fcalls@, end,
                    offset as int),
            decreases 32 - offset,
        {
            let ghost before = out@;
            if let Some(show) = end.checked_add(offset) {
                if let Some(c) = self.instructions(show, 64) {
                    if let Some(m) = show_members_exec(&c) {
                        if resets_glyphs_exec(setter, m.2) {
                            let more = self.finish_pairs_exec(fcalls, show, m);
                            crate::chars::append_all(&mut out, &more);
                            assert(before + (more@ + show_pairs(*self, setter@, fcalls@, end, offset + 1)) =~= out@
                                + show_pairs(*self, setter@, fcalls@, end, offset + 1));
                        }
                    }
                }
            }
            offset += 1;
        }
        assert(out@ + show_pairs(*self, setter@, fcalls@, end, offset as int) =~= out@);
        out
    }

    /// The display and finishing helpers of the UTF-8 profile for the append method `append`
    /// and the setter body `setter`.
    pub fn display_methods(&self, append: usize, setter: &Vec<Decoded>) -> (r: Option<(usize, usize)>)
        requires
            image_fits(*self),
        ensures
            r == display_methods(*self, append, setter@),
    {
        proof {
            lemma_command_names();
        }
        let marker = match self.handler(APPEND_MARK_COMMAND.as_bytes(), CLEAR_COMMAND.as_bytes()) {
            Some(c) => c,
            None => return None,
        };
        let skip = match self.handler(SKIP_COMMAND.as_bytes(), REFEX_COMMAND.as_bytes()) {
            Some(c) => c,
            None => return None,
        };
        let mcalls = call_targets_exec(&marker);
        let fcalls = call_targets_exec(&skip);
        let mut found: Vec<(usize, usize)> = Vec::new();
        let mut i: usize = 0;
        while i < mcalls.len()
            invariant
                i <= mcalls@.len(),
                image_fits(*self),
                marker_pairs(*self, append, setter@, mcalls@, fcalls@, 0) == found@ + marker_pairs(*self, append,
                    setter@, mcalls@, fcalls@, i as int),
            decreases mcalls.len() - i,
        {
            let ghost before = found@;
            if let Some(b) = self.instructions(mcalls[i], 64) {
                if self.marker_body_exec(&b, append) {
                    let end = b[7].next_ip as usize;
                    let more = self.show_pairs_exec(setter, &fcalls, end);
                    crate::chars::append_all(&mut found, &more);
                    assert(before + (more@ + marker_pairs(*self, append, setter@, mcalls@, fcalls@, i + 1)) =~= found@
                        + marker_pairs(*self, append, setter@, mcalls@, fcalls@, i + 1));
                }
            }
            i += 1;
        }
        assert(found@ + marker_pairs(*self, append, setter@, mcalls@, fcalls@, i as int) =~= found@);
        sole_pair(&found)
    }
}

fn same_shape(a: &Shape, b: &Shape) -> (r: bool)
    ensures
        r == (*a == *b),
{
    let history = match (a.history, b.history) {
        (Some(x), Some(y)) => x.0 == y.0 && x.1 == y.1,
        (None, None) => true,
        _ => false,
    };
    a.profile == b.profile && a.table == b.table && a.setter == b.setter && a.append == b.append
        && a.destroy == b.destroy && a.tick == b.tick && a.text_member == b.text_member && a.show == b.show
        && a.finish == b.finish && history
}

pub(crate) fn sole_shape(c: &Vec<Shape>) -> (r: Option<Shape>)
    ensures
        r == sole(c@),
{
    if c.len() == 0 {
        return None;
    }
    let first = c[0];
    let mut k: usize = 0;
    while k < c.len()
        invariant
            k <= c@.len(),
            c@.len() > 0,
            first == c@[0],
            forall|j: int| 0 <= j < k ==> #[trigger] c@[j] == c@[0],
        decreases c.len() - k,
    {
        if !same_shape(&c[k], &first) {
            return None;
        }
        k += 1;
    }
    Some(first)
}

fn exists_exec_reads(dcode: &Vec<Decoded>, member: usize) -> (r: bool)
    ensures
        r == exists|k: int| 0 <= k < dcode@.len() && reads_member(#[trigger] dcode@[k], member),
{
    let mut k: usize = 0;
    while k < dcode.len()
        invariant
            k <= dcode@.len(),
            forall|j: int| 0 <= j < k ==> !reads_member(#[trigger] dcode@[j], member),
        decreases dcode.len() - k,
    {
        let d = dcode[k];
        if d.mnemonic == MN_MOV && d.op1_kind == OP_MEMORY && d.displacement as usize == member {
            assert(reads_member(dcode@[k as int], member));
            return true;
        }
        k += 1;
    }
    false
}

fn exists_exec_writes_table(dcode: &Vec<Decoded>, table: usize) -> (r: bool)
    ensures
        r == exists|k: int| 0 <= k < dcode@.len() && writes_table(#[trigger] dcode@[k], table),
{
    let mut k: usize = 0;
    while k < dcode.len()
        invariant
            k <= dcode@.len(),
            forall|j: int| 0 <= j < k ==> !writes_table(#[trigger] dcode@[j], table),
        decreases dcode.len() - k,
    {
        let d = dcode[k];
        if d.mnemonic == MN_MOV && d.op0_kind == OP_MEMORY && d.displacement == 0 && d.op1_kind == OP_IMMEDIATE32
            && d.immediate32 as usize == table {
            assert(writes_table(dcode@[k as int], table));
            return true;
        }
        k += 1;
    }
    false
}

proof fn lemma_class_names()
    ensures
        TEXT_OBJECT_TYPE.spec_bytes().len() > 0,
        HISTORY_OBJECT_TYPE.spec_bytes().len() > 0,
{
    reveal_strlit(".?AVkcFEScriptObjStringUTF8@@\0");
    reveal_strlit(".?AVkcFEScriptObjLogStringUTF8@@\0");
    vstd::string::is_ascii_spec_bytes(TEXT_OBJECT_TYPE);
    vstd::string::is_ascii_spec_bytes(HISTORY_OBJECT_TYPE);
}

impl Image {
    /// The word at `at + offset`, where `at + offset` may lie past the address space.
    pub(crate) fn word_after(&self, at: usize, offset: usize) -> (r: Option<usize>)
        requires
            image_fits(*self),
        ensures
            match r {
                Some(v) => image_word(*self, at + offset) == Some(v as int),
                None => image_word(*self, at + offset) is None,
            },
    {
        match at.checked_add(offset) {
            Some(a) => self.word(a),
            None => None,
        }
    }

    fn utf8_history_exec(&self) -> (r: Option<(usize, usize)>)
        requires
            image_fits(*self),
        ensures
            r == utf8_history(*self),
    {
        proof {
            lemma_class_names();
        }
        let t = match self.named_table(HISTORY_OBJECT_TYPE.as_bytes()) {
            Some(t) => t,
            None => return None,
        };
        let tick = match self.word_after(t, 8) {
            Some(w) => w,
            None => return None,
        };
        match self.instructions(tick, 4096) {
            Some(c) => if ends_in_ret(&c, 4) {
                Some((t, tick))
            } else {
                None
            },
            None => None,
        }
    }

    fn getter_member_exec(&self, end: usize, skip: usize) -> (r: Option<usize>)
        requires
            image_fits(*self),
        ensures
            r == getter_member(*self, end + skip),
    {
        let at = match end.checked_add(skip) {
            Some(a) => a,
            None => return None,
        };
        let bytes = match self.read(at, 10) {
            Some(b) => b,
            None => return None,
        };
        let g = decode_listing(bytes.as_slice(), 0, 2);
        if g.len() != 2 {
            return None;
        }
        let member = g[0].displacement as usize;
        if g[0].mnemonic == MN_MOV && g[0].op0_register == REG_EAX && g[0].op1_kind == OP_MEMORY
            && g[0].memory_base == REG_ECX && g[0].memory_index == REG_NONE && g[1].mnemonic == MN_RET && (
        g[1].op_count == 0 || g[1].immediate16 == 0) && 4 <= member && member <= 8192 && member % 4 == 0 {
            Some(member)
        } else {
            None
        }
    }

    fn setter_shapes_exec(&self, f: Utf8Frame, append: usize, member: usize, setters: &Vec<usize>) -> (r: Vec<Shape>)
        requires
            image_fits(*self),
        ensures
            r@ == setter_shapes(*self, f, append, member, setters@, 0),
    {
        let mut out: Vec<Shape> = Vec::new();
        let mut k: usize = 0;
        while k < setters.len()
            invariant
                k <= setters@.len(),
                image_fits(*self),
                setter_shapes(*self, f, append, member, setters@, 0) == out@ + setter_shapes(*self, f, append, member,
                    setters@, k as int),
            decreases setters.len() - k,
        {
            let ghost before = out@;
            let setter = setters[k];
            if let Some(set) = self.instructions(setter, 1024) {
                if buffer_method(&set, member) {
                    if let Some((show, finish)) = self.display_methods(append, &set) {
                        let shape = Shape {
                            profile: Profile::Utf8,
                            table: f.table,
                            setter,
                            append,
                            destroy: f.destroy,
                            tick: f.tick,
                            text_member: member,
                            show,
                            finish,
                            history: f.history,
                        };
                        out.push(shape);
                        assert(before + (seq![shape] + setter_shapes(*self, f, append, member, setters@, k + 1)) =~= out@
                            + setter_shapes(*self, f, append, member, setters@, k + 1));
                    }
                }
            }
            k += 1;
        }
        assert(out@ + setter_shapes(*self, f, append, member, setters@, k as int) =~= out@);
        out
    }

    fn getter_shapes_exec(
        &self,
        f: Utf8Frame,
        dcode: &Vec<Decoded>,
        setters: &Vec<usize>,
        append: usize,
        body: &Vec<Decoded>,
        end: usize,
    ) -> (r: Vec<Shape>)
        requires
            image_fits(*self),
        ensures
            r@ == getter_shapes(*self, f, dcode@, setters@, append, body@, end, 0),
    {
        let mut out: Vec<Shape> = Vec::new();
        let mut skip: usize = 0;
        while skip < 32
            invariant
                skip <= 32,
                image_fits(*self),
                getter_shapes(*self, f, dcode@, setters@, append, body@, end, 0) == out@ + getter_shapes(*self, f,
                    dcode@, setters@, append, body@, end, skip as int),
            decreases 32 - skip,
        {
            let ghost before = out@;
            if let Some(member) = self.getter_member_exec(end, skip) {
                if exists_exec_reads(dcode, member) && buffer_method(body, member) {
                    let more = self.setter_shapes_exec(f, append, member, setters);
                    crate::chars::append_all(&mut out, &more);
                    assert(before + (more@ + getter_shapes(*self, f, dcode@, setters@, append, body@, end, skip + 1))
                        =~= out@ + getter_shapes(*self, f, dcode@, setters@, append, body@, end, skip + 1));
                }
            }
            skip += 1;
        }
        assert(out@ + getter_shapes(*self, f, dcode@, setters@, append, body@, end, skip as int) =~= out@);
        out
    }

    fn append_shapes_exec(&self, f: Utf8Frame, dcode: &Vec<Decoded>, setters: &Vec<usize>, appenders: &Vec<usize>) -> (r: Vec<
        Shape,
    >)
        requires
            image_fits(*self),
        ensures
            r@ == append_shapes(*self, f, dcode@, setters@, appenders@, 0),
    {
        let mut out: Vec<Shape> = Vec::new();
        let mut i: usize = 0;
        while i < appenders.len()
            invariant
                i <= appenders@.len(),
                image_fits(*self),
                append_shapes(*self, f, dcode@, setters@, appenders@, 0) == out@ + append_shapes(*self, f, dcode@,
                    setters@, appenders@, i as int),
            decreases appenders.len() - i,
        {
            let ghost before = out@;
            let append = appenders[i];
            if let Some(body) = self.instructions(append, 1024) {
                if ends_in_ret(&body, 4) {
                    let end = body[body.len() - 1].next_ip as usize;
                    let more = self.getter_shapes_exec(f, dcode, setters, append, &body, end);
                    crate::chars::append_all(&mut out, &more);
                    assert(before + (more@ + append_shapes(*self, f, dcode@, setters@, appenders@, i + 1)) =~= out@
                        + append_shapes(*self, f, dcode@, setters@, appenders@, i + 1));
                }
            }
            i += 1;
        }
        assert(out@ + append_shapes(*self, f, dcode@, setters@, appenders@, i as int) =~= out@);
        out
    }

    /// The shape of the UTF-8 profile, when the image's code supports exactly one.
    pub fn discover_utf8(&self) -> (r: Option<Shape>)
        requires
            image_fits(*self),
        ensures
            r == utf8_shape(*self),
    {
        proof {
            lemma_class_names();
            lemma_command_names();
        }
        let table = match self.named_table(TEXT_OBJECT_TYPE.as_bytes()) {
            Some(t) => t,
            None => return None,
        };
        let history = self.utf8_history_exec();
        let first = match self.word(table) {
            Some(w) => w,
            None => return None,
        };
        let deleting = match self.instructions(first, 128) {
            Some(c) => c,
            None => return None,
        };
        if !ends_in_ret(&deleting, 4) {
            return None;
        }
        let calls = call_targets_exec(&deleting);
        if calls.len() == 0 {
            return None;
        }
        let destroy = calls[0];
        let bytes = match self.read(destroy, 256) {
            Some(b) => b,
            None => return None,
        };
        // The complete destructor writes the class's table before it releases the buffer.
        let dcode = decode_listing(bytes.as_slice(), destroy as u64, 64);
        if !exists_exec_writes_table(&dcode, table) {
            return None;
        }
        let tick = match self.word_after(table, 8) {
            Some(w) => w,
            None => return None,
        };
        let tc = match self.instructions(tick, 4096) {
            Some(c) => c,
            None => return None,
        };
        if !ends_in_ret(&tc, 4) {
            return None;
        }
        let setters = match self.commands(STR_COMMAND.as_bytes(), RESET_COMMAND.as_bytes()) {
            Some(v) => v,
            None => return None,
        };
        let appenders = match self.commands(APPEND_COMMAND.as_bytes(), APPEND_MARK_COMMAND.as_bytes()) {
            Some(v) => v,
            None => return None,
        };
        let f = Utf8Frame { table, history, destroy, tick };
        let shapes = self.append_shapes_exec(f, &dcode, &setters, &appenders);
        sole_shape(&shapes)
    }
}

impl Image {
    /// The shape of the engine's text class: the UTF-8 profile's when the image has one,
    /// else the classic profile's.
    pub fn discover(&self) -> (r: Option<Shape>)
        requires
            image_fits(*self),
        ensures
            r == discovered_shape(*self),
    {
        match self.discover_utf8() {
            Some(s) => Some(s),
            None => self.discover_classic(),
        }
    }
}

} // verus!
