//! The classic (pre-UTF-8) profile of the CatSystem2 text class: an optimized register
//! convention, where every method is tied back to the engine's command table and RTTI.
use vstd::prelude::*;
use vstd::string::StringSliceAdditionalSpecFns;
use crate::catsystem2::Profile;
use crate::catsystem2_image::{image_bytes, image_fits, image_word, table_named, Image, Shape};
use crate::catsystem2_shape::{
    call_targets_exec, code_at, ends_in_ret, first_call, handler_code, is_call, lemma_command_names,
    loops_back, plausible_member, returns_with, sole, sole_shape, stores_byte, APPEND_COMMAND, APPEND_MARK_COMMAND,
    CLEAR_COMMAND, REFEX_COMMAND, RESET_COMMAND, SKIP_COMMAND, STR_COMMAND,
};
use crate::x86::{
    decode_until_exit, until_exit, Decoded, MN_CALL, MN_JNE, MN_LEA, MN_MOV, MN_PUSH, MN_RET, OP_IMMEDIATE32,
    OP_MEMORY, OP_NEAR_BRANCH32, REG_AL, REG_CL, REG_EAX, REG_EBP, REG_EBX, REG_ECX, REG_EDI, REG_ESI, REG_ESP,
    REG_NONE,
};

verus! {

/// The decorated name of the classic (pre-UTF-8) text object class.
pub const CLASSIC_OBJECT_TYPE: &'static str = ".?AVkcFEScriptObjString@@\0";

/// A `mov` to (`destination`) or from `[base+offset]` with a plausible member offset: the offset.
pub open spec fn member_of(d: Decoded, base: u8, destination: bool) -> Option<usize> {
    let offset = d.displacement as usize;
    if d.mnemonic == MN_MOV && (if destination { d.op0_kind } else { d.op1_kind }) == OP_MEMORY && d.memory_base == base
        && d.memory_index == REG_NONE && 4 <= offset <= 8192 && offset % 4 == 0 {
        Some(offset)
    } else {
        None
    }
}

/// The body ends in a plain `ret`.
pub open spec fn ret0(c: Seq<Decoded>) -> bool {
    c.len() > 0 && c.last().mnemonic == MN_RET && c.last().op_count == 0
}

/// A `mov [base+offset], eax`.
pub open spec fn stores_eax_member(d: Decoded, base: u8, offset: usize) -> bool {
    member_of(d, base, true) == Some(offset) && d.op1_register == REG_EAX
}

/// A classic copy into the buffer at `[base+offset]`: the pointer stored from `eax`, byte
/// stores and a backward loop.
pub open spec fn copies(c: Seq<Decoded>, base: u8, offset: usize) -> bool {
    &&& exists|k: int| 0 <= k < c.len() && stores_eax_member(#[trigger] c[k], base, offset)
    &&& exists|k: int| 0 <= k < c.len() && stores_byte(#[trigger] c[k])
    &&& exists|k: int| 0 <= k < c.len() && loops_back(#[trigger] c[k])
}

/// The members the destructor code `c[k..]` reads through `edi`, in order.
pub open spec fn destroyed_members(c: Seq<Decoded>, k: int) -> Seq<usize>
    decreases c.len() - k,
{
    if k < 0 || k >= c.len() {
        Seq::empty()
    } else {
        match member_of(c[k], REG_EDI, false) {
            Some(m) => seq![m] + destroyed_members(c, k + 1),
            None => destroyed_members(c, k + 1),
        }
    }
}

/// A `mov dword [edi], table`.
pub open spec fn writes_table_edi(d: Decoded, table: usize) -> bool {
    d.mnemonic == MN_MOV && d.op0_kind == OP_MEMORY && d.memory_base == REG_EDI && d.displacement == 0
        && d.op1_kind == OP_IMMEDIATE32 && d.immediate32 as usize == table
}

/// A `mov edi, ecx`.
pub open spec fn keeps_this_in_edi(d: Decoded) -> bool {
    d.mnemonic == MN_MOV && d.op0_register == REG_EDI && d.op1_register == REG_ECX
}

/// The setters the classic `str` command calls in `c[k..]`: `lea esi, [esp/ebp+..]; call setter`.
pub open spec fn classic_setters(c: Seq<Decoded>, k: int) -> Seq<usize>
    decreases c.len() - k,
{
    if k < 0 || k + 2 > c.len() {
        Seq::empty()
    } else if c[k].mnemonic == MN_LEA && c[k].op0_register == REG_ESI && (c[k].memory_base == REG_ESP
        || c[k].memory_base == REG_EBP) && is_call(c[k + 1]) {
        seq![c[k + 1].near_branch_target as usize] + classic_setters(c, k + 1)
    } else {
        classic_setters(c, k + 1)
    }
}

/// The append methods the classic `apend` command calls in `c[k..]`: `lea r, [esp/ebp+..];
/// push r; mov ebx, eax; call append`.
pub open spec fn classic_appends(c: Seq<Decoded>, k: int) -> Seq<usize>
    decreases c.len() - k,
{
    if k < 0 || k + 4 > c.len() {
        Seq::empty()
    } else if c[k].mnemonic == MN_LEA && (c[k].memory_base == REG_ESP || c[k].memory_base == REG_EBP)
        && c[k + 1].mnemonic == MN_PUSH && c[k + 1].op0_register == c[k].op0_register && c[k + 2].mnemonic == MN_MOV
        && c[k + 2].op0_register == REG_EBX && c[k + 2].op1_register == REG_EAX && is_call(c[k + 3]) {
        seq![c[k + 3].near_branch_target as usize] + classic_appends(c, k + 1)
    } else {
        classic_appends(c, k + 1)
    }
}

/// The marker command pushes the bytes `FF 00` and calls `append` right after.
pub open spec fn marks_with(img: Image, marker: Seq<Decoded>, append: usize) -> bool {
    exists|k: int|
        0 <= k && k + 1 < marker.len() && (#[trigger] marker[k]).mnemonic == MN_PUSH && marker[k].op0_kind
            == OP_IMMEDIATE32 && image_bytes(img, marker[k].immediate32 as int, 2) == Some(seq![255u8, 0u8])
            && is_call(marker[k + 1]) && marker[k + 1].near_branch_target as usize == append
}

/// A `mov dword [edi+glyphs], -1` in the classic setter.
pub open spec fn resets_glyphs_edi(d: Decoded, glyphs: usize) -> bool {
    member_of(d, REG_EDI, true) == Some(glyphs) && d.op1_kind == OP_IMMEDIATE32 && d.immediate32 == u32::MAX
}

/// A `mov dword [eax+flag], 1` in the skip command.
pub open spec fn sets_flag(d: Decoded, flag: usize) -> bool {
    member_of(d, REG_EAX, true) == Some(flag) && d.op1_kind == OP_IMMEDIATE32 && d.immediate32 == 1
}

/// The optimized display helper at `show`: five instructions storing `ecx` into
/// `[eax+limit]`, `mov ecx, 1`, then `ecx` into `[eax+dirty]` and `[eax+glyphs]`, and `ret`;
/// the members distinct, and the glyph count one the setter resets.
pub open spec fn classic_display(img: Image, set: Seq<Decoded>, show: int) -> Option<(usize, usize, usize)> {
    match code_at(img, show, 32) {
        None => None,
        Some(c) => if c.len() != 5 || !ret0(c) || c[0].op1_register != REG_ECX || c[1].mnemonic != MN_MOV
            || c[1].op0_register != REG_ECX || c[1].op1_kind != OP_IMMEDIATE32 || c[1].immediate32 != 1
            || c[2].op1_register != REG_ECX || c[3].op1_register != REG_ECX {
            None
        } else {
            match (member_of(c[0], REG_EAX, true), member_of(c[2], REG_EAX, true), member_of(c[3], REG_EAX, true)) {
                (Some(limit), Some(dirty), Some(glyphs)) => if limit == dirty || limit == glyphs || dirty == glyphs
                    || !exists|k: int| 0 <= k < set.len() && resets_glyphs_edi(#[trigger] set[k], glyphs) {
                    None
                } else {
                    Some((limit, dirty, glyphs))
                },
                _ => None,
            }
        },
    }
}

/// The optimized finishing helper at `finish`: `mov dword [eax+flag], 1; ret`, with a flag
/// apart from the display members and the text member that the skip command also sets.
pub open spec fn classic_finish(img: Image, skip: Seq<Decoded>, member: usize, m: (usize, usize, usize), finish: int) -> bool {
    match code_at(img, finish, 16) {
        None => false,
        Some(f) => f.len() == 2 && ret0(f) && f[0].op1_kind == OP_IMMEDIATE32 && f[0].immediate32 == 1
            && match member_of(f[0], REG_EAX, true) {
            None => false,
            Some(flag) => flag != m.0 && flag != m.1 && flag != m.2 && flag != member && exists|k: int|
                0 <= k < skip.len() && sets_flag(#[trigger] skip[k], flag),
        },
    }
}

/// The class-wide parts of a classic profile shape.
#[derive(Clone, Copy, Debug, PartialEq, Eq)]
pub struct ClassicFrame {
    pub table: usize,
    pub destroy: usize,
    pub tick: usize,
}

/// Where a backward search of `span` bytes before `at` starts.
pub open spec fn below(at: usize, span: usize) -> int {
    if at >= span { at - span } else { 0 }
}

/// The classic shapes whose finishing helper lies in `finish..show`.
pub open spec fn finish_shapes(
    img: Image,
    cf: ClassicFrame,
    skip: Seq<Decoded>,
    setter: usize,
    append: usize,
    member: usize,
    show: usize,
    m: (usize, usize, usize),
    finish: int,
) -> Seq<Shape>
    decreases show - finish,
{
    if finish < 0 || finish >= show {
        Seq::empty()
    } else {
        let rest = finish_shapes(img, cf, skip, setter, append, member, show, m, finish + 1);
        if classic_finish(img, skip, member, m, finish) {
            seq![
                Shape {
                    profile: Profile::Classic,
                    table: cf.table,
                    setter,
                    append,
                    destroy: cf.destroy,
                    tick: cf.tick,
                    text_member: member,
                    show,
                    finish: finish as usize,
                    history: None,
                },
            ] + rest
        } else {
            rest
        }
    }
}

/// The classic shapes whose display helper lies in `show..append`.
pub open spec fn show_shapes(
    img: Image,
    cf: ClassicFrame,
    skip: Seq<Decoded>,
    set: Seq<Decoded>,
    setter: usize,
    append: usize,
    member: usize,
    show: int,
) -> Seq<Shape>
    decreases append - show,
{
    if show < 0 || show >= append {
        Seq::empty()
    } else {
        let rest = show_shapes(img, cf, skip, set, setter, append, member, show + 1);
        match classic_display(img, set, show) {
            None => rest,
            Some(m) => finish_shapes(img, cf, skip, setter, append, member, show as usize, m, below(show as usize, 128))
                + rest,
        }
    }
}

/// The classic shapes for the setter `setter` (body `set`) and `member`, with the append
/// methods `appends[a..]`.
pub open spec fn classic_append_shapes(
    img: Image,
    cf: ClassicFrame,
    skip: Seq<Decoded>,
    marker: Seq<Decoded>,
    set: Seq<Decoded>,
    setter: usize,
    member: usize,
    appends: Seq<usize>,
    a: int,
) -> Seq<Shape>
    decreases appends.len() - a,
{
    if a < 0 || a >= appends.len() {
        Seq::empty()
    } else {
        let rest = classic_append_shapes(img, cf, skip, marker, set, setter, member, appends, a + 1);
        let append = appends[a];
        match code_at(img, append as int, 1024) {
            None => rest,
            Some(body) => if returns_with(body, 4) && copies(body, REG_EBX, member) && marks_with(img, marker, append) {
                show_shapes(img, cf, skip, set, setter, append, member, below(append, 2048)) + rest
            } else {
                rest
            },
        }
    }
}

/// The classic shapes for the setter `setter` (body `set`) and the destroyed members `members[j..]`.
pub open spec fn member_shapes(
    img: Image,
    cf: ClassicFrame,
    skip: Seq<Decoded>,
    marker: Seq<Decoded>,
    appends: Seq<usize>,
    set: Seq<Decoded>,
    setter: usize,
    members: Seq<usize>,
    j: int,
) -> Seq<Shape>
    decreases members.len() - j,
{
    if j < 0 || j >= members.len() {
        Seq::empty()
    } else {
        let rest = member_shapes(img, cf, skip, marker, appends, set, setter, members, j + 1);
        if copies(set, REG_EDI, members[j]) {
            classic_append_shapes(img, cf, skip, marker, set, setter, members[j], appends, 0) + rest
        } else {
            rest
        }
    }
}

/// The classic shapes for the setters `setters[i..]`.
pub open spec fn classic_setter_shapes(
    img: Image,
    cf: ClassicFrame,
    skip: Seq<Decoded>,
    marker: Seq<Decoded>,
    appends: Seq<usize>,
    members: Seq<usize>,
    setters: Seq<usize>,
    i: int,
) -> Seq<Shape>
    decreases setters.len() - i,
{
    if i < 0 || i >= setters.len() {
        Seq::empty()
    } else {
        let rest = classic_setter_shapes(img, cf, skip, marker, appends, members, setters, i + 1);
        match code_at(img, setters[i] as int, 1024) {
            Some(set) => if ret0(set) {
                member_shapes(img, cf, skip, marker, appends, set, setters[i], members, 0) + rest
            } else {
                rest
            },
            None => rest,
        }
    }
}

/// What the classic class gives before the method search: its frame, the members its
/// destructor reads, the setters and append methods of its commands, and the bodies of the
/// marker and skip commands.
pub open spec fn classic_frame(img: Image) -> Option<(ClassicFrame, Seq<usize>, Seq<usize>, Seq<usize>, Seq<Decoded>, Seq<Decoded>)> {
    match table_named(img, CLASSIC_OBJECT_TYPE.spec_bytes(), 3) {
        None => None,
        Some(table) => match image_word(img, table as int) {
            None => None,
            Some(first) => match code_at(img, first, 128) {
                None => None,
                Some(deleting) => match first_call(deleting) {
                    None => None,
                    Some(destroy) => match image_bytes(img, destroy as int, 128) {
                        None => None,
                        Some(bytes) => {
                            let destruction = until_exit(bytes, destroy as int, 0);
                            match image_word(img, table + 8) {
                                None => None,
                                Some(tick) => match (
                                    code_at(img, tick, 4096),
                                    handler_code(img, STR_COMMAND.spec_bytes(), RESET_COMMAND.spec_bytes()),
                                    handler_code(img, APPEND_COMMAND.spec_bytes(), APPEND_MARK_COMMAND.spec_bytes()),
                                    handler_code(img, APPEND_MARK_COMMAND.spec_bytes(), CLEAR_COMMAND.spec_bytes()),
                                    handler_code(img, SKIP_COMMAND.spec_bytes(), REFEX_COMMAND.spec_bytes()),
                                ) {
                                    (Some(tc), Some(str_command), Some(append_command), Some(marker), Some(skip)) =>
                                        if returns_with(deleting, 4) && (exists|k: int|
                                        0 <= k < deleting.len() && keeps_this_in_edi(#[trigger] deleting[k])) && (exists|k: int|
                                        0 <= k < destruction.len() && writes_table_edi(#[trigger] destruction[k], table))
                                        && returns_with(tc, 4) {
                                        Some((
                                            ClassicFrame { table, destroy, tick: tick as usize },
                                            destroyed_members(destruction, 0),
                                            classic_setters(str_command, 0),
                                            classic_appends(append_command, 0),
                                            marker,
                                            skip,
                                        ))
                                    } else {
                                        None
                                    },
                                    _ => None,
                                },
                            }
                        },
                    },
                },
            },
        },
    }
}

/// The shape of the classic profile: the one the image's code supports, if exactly one.
pub open spec fn classic_shape(img: Image) -> Option<Shape> {
    match classic_frame(img) {
        None => None,
        Some((cf, members, setters, appends, marker, skip)) => sole(
            classic_setter_shapes(img, cf, skip, marker, appends, members, setters, 0),
        ),
    }
}

pub(crate) proof fn lemma_destroyed_members_plausible(c: Seq<Decoded>, k: int)
    ensures
        forall|j: int| 0 <= j < destroyed_members(c, k).len() ==> plausible_member(#[trigger] destroyed_members(c, k)[j]),
    decreases c.len() - k,
{
    if 0 <= k < c.len() {
        lemma_destroyed_members_plausible(c, k + 1);
        let rest = destroyed_members(c, k + 1);
        if let Some(m) = member_of(c[k], REG_EDI, false) {
            assert forall|j: int| 0 <= j < destroyed_members(c, k).len() implies plausible_member(
                #[trigger] destroyed_members(c, k)[j],
            ) by {
                if j > 0 {
                    assert(destroyed_members(c, k)[j] == rest[j - 1]);
                }
            }
        }
    }
}

proof fn lemma_finish_shapes_member(
    img: Image,
    cf: ClassicFrame,
    skip: Seq<Decoded>,
    setter: usize,
    append: usize,
    member: usize,
    show: usize,
    m: (usize, usize, usize),
    finish: int,
)
    ensures
        forall|j: int| 0 <= j < finish_shapes(img, cf, skip, setter, append, member, show, m, finish).len() ==> (
        #[trigger] finish_shapes(img, cf, skip, setter, append, member, show, m, finish)[j]).text_member == member
            && finish_shapes(img, cf, skip, setter, append, member, show, m, finish)[j].profile == Profile::Classic && finish_shapes(img, cf, skip, setter, append, member, show, m, finish)[j].history is None,
    decreases show - finish,
{
    if 0 <= finish < show {
        lemma_finish_shapes_member(img, cf, skip, setter, append, member, show, m, finish + 1);
    }
}

proof fn lemma_show_shapes_member(
    img: Image,
    cf: ClassicFrame,
    skip: Seq<Decoded>,
    set: Seq<Decoded>,
    setter: usize,
    append: usize,
    member: usize,
    show: int,
)
    ensures
        forall|j: int| 0 <= j < show_shapes(img, cf, skip, set, setter, append, member, show).len() ==> (
        #[trigger] show_shapes(img, cf, skip, set, setter, append, member, show)[j]).text_member == member
            && show_shapes(img, cf, skip, set, setter, append, member, show)[j].profile == Profile::Classic && show_shapes(img, cf, skip, set, setter, append, member, show)[j].history is None,
    decreases append - show,
{
    if 0 <= show < append {
        lemma_show_shapes_member(img, cf, skip, set, setter, append, member, show + 1);
        if let Some(m) = classic_display(img, set, show) {
            lemma_finish_shapes_member(img, cf, skip, setter, append, member, show as usize, m, below(show as usize, 128));
        }
    }
}

proof fn lemma_classic_append_shapes_member(
    img: Image,
    cf: ClassicFrame,
    skip: Seq<Decoded>,
    marker: Seq<Decoded>,
    set: Seq<Decoded>,
    setter: usize,
    member: usize,
    appends: Seq<usize>,
    a: int,
)
    ensures
        forall|j: int| 0 <= j < classic_append_shapes(img, cf, skip, marker, set, setter, member, appends, a).len() ==> (
        #[trigger] classic_append_shapes(img, cf, skip, marker, set, setter, member, appends, a)[j]).text_member == member
            && classic_append_shapes(img, cf, skip, marker, set, setter, member, appends, a)[j].profile
            == Profile::Classic && classic_append_shapes(img, cf, skip, marker, set, setter, member, appends, a)[j].history is None,
    decreases appends.len() - a,
{
    if 0 <= a < appends.len() {
        lemma_classic_append_shapes_member(img, cf, skip, marker, set, setter, member, appends, a + 1);
        lemma_show_shapes_member(img, cf, skip, set, setter, appends[a], member, below(appends[a], 2048));
    }
}

proof fn lemma_member_shapes_member(
    img: Image,
    cf: ClassicFrame,
    skip: Seq<Decoded>,
    marker: Seq<Decoded>,
    appends: Seq<usize>,
    set: Seq<Decoded>,
    setter: usize,
    members: Seq<usize>,
    j0: int,
)
    requires
        forall|j: int| 0 <= j < members.len() ==> plausible_member(#[trigger] members[j]),
    ensures
        forall|j: int| 0 <= j < member_shapes(img, cf, skip, marker, appends, set, setter, members, j0).len()
            ==> plausible_member((#[trigger] member_shapes(img, cf, skip, marker, appends, set, setter, members, j0)[j]).text_member)
            && member_shapes(img, cf, skip, marker, appends, set, setter, members, j0)[j].profile == Profile::Classic && member_shapes(img, cf, skip, marker, appends, set, setter, members, j0)[j].history is None,
    decreases members.len() - j0,
{
    if 0 <= j0 < members.len() {
        lemma_member_shapes_member(img, cf, skip, marker, appends, set, setter, members, j0 + 1);
        lemma_classic_append_shapes_member(img, cf, skip, marker, set, setter, members[j0], appends, 0);
    }
}

pub(crate) proof fn lemma_classic_setter_shapes_member(
    img: Image,
    cf: ClassicFrame,
    skip: Seq<Decoded>,
    marker: Seq<Decoded>,
    appends: Seq<usize>,
    members: Seq<usize>,
    setters: Seq<usize>,
    i: int,
)
    requires
        forall|j: int| 0 <= j < members.len() ==> plausible_member(#[trigger] members[j]),
    ensures
        forall|j: int| 0 <= j < classic_setter_shapes(img, cf, skip, marker, appends, members, setters, i).len()
            ==> plausible_member((#[trigger] classic_setter_shapes(img, cf, skip, marker, appends, members, setters, i)[j]).text_member)
            && classic_setter_shapes(img, cf, skip, marker, appends, members, setters, i)[j].profile == Profile::Classic && classic_setter_shapes(img, cf, skip, marker, appends, members, setters, i)[j].history is None,
    decreases setters.len() - i,
{
    if 0 <= i < setters.len() {
        lemma_classic_setter_shapes_member(img, cf, skip, marker, appends, members, setters, i + 1);
        if let Some(set) = code_at(img, setters[i] as int, 1024) {
            lemma_member_shapes_member(img, cf, skip, marker, appends, set, setters[i], members, 0);
        }
    }
}

fn member_of_exec(d: Decoded, base: u8, destination: bool) -> (r: Option<usize>)
    ensures
        r == member_of(d, base, destination),
{
    let offset = d.displacement as usize;
    let kind = if destination { d.op0_kind } else { d.op1_kind };
    if d.mnemonic == MN_MOV && kind == OP_MEMORY && d.memory_base == base && d.memory_index == REG_NONE && 4 <= offset
        && offset <= 8192 && offset % 4 == 0 {
        Some(offset)
    } else {
        None
    }
}

fn ret0_exec(c: &Vec<Decoded>) -> (r: bool)
    ensures
        r == ret0(c@),
{
    c.len() > 0 && c[c.len() - 1].mnemonic == MN_RET && c[c.len() - 1].op_count == 0
}

fn copies_exec(c: &Vec<Decoded>, base: u8, offset: usize) -> (r: bool)
    ensures
        r == copies(c@, base, offset),
{
    let mut eax = false;
    let mut byte = false;
    let mut back = false;
    let mut k: usize = 0;
    while k < c.len()
        invariant
            k <= c@.len(),
            eax == exists|j: int| 0 <= j < k && stores_eax_member(#[trigger] c@[j], base, offset),
            byte == exists|j: int| 0 <= j < k && stores_byte(#[trigger] c@[j]),
            back == exists|j: int| 0 <= j < k && loops_back(#[trigger] c@[j]),
        decreases c.len() - k,
    {
        let d = c[k];
        if member_of_exec(d, base, true) == Some(offset) && d.op1_register == REG_EAX {
            eax = true;
        }
        if d.mnemonic == MN_MOV && d.op0_kind == OP_MEMORY && (d.op1_register == REG_AL || d.op1_register == REG_CL) {
            byte = true;
        }
        if d.mnemonic == MN_JNE && d.near_branch_target < d.ip {
            back = true;
        }
        proof {
            assert(stores_eax_member(c@[k as int], base, offset) ==> (exists|j: int| 0 <= j < k + 1
                && stores_eax_member(#[trigger] c@[j], base, offset)));
            assert(stores_byte(c@[k as int]) ==> (exists|j: int| 0 <= j < k + 1 && stores_byte(#[trigger] c@[j])));
            assert(loops_back(c@[k as int]) ==> (exists|j: int| 0 <= j < k + 1 && loops_back(#[trigger] c@[j])));
        }
        k += 1;
    }
    eax && byte && back
}

fn destroyed_members_exec(c: &Vec<Decoded>) -> (r: Vec<usize>)
    ensures
        r@ == destroyed_members(c@, 0),
{
    let mut out: Vec<usize> = Vec::new();
    let mut k: usize = 0;
    while k < c.len()
        invariant
            k <= c@.len(),
            destroyed_members(c@, 0) == out@ + destroyed_members(c@, k as int),
        decreases c.len() - k,
    {
        let ghost before = out@;
        if let Some(m) = member_of_exec(c[k], REG_EDI, false) {
            out.push(m);
            assert(before + (seq![m] + destroyed_members(c@, k + 1)) =~= out@ + destroyed_members(c@, k + 1));
        }
        k += 1;
    }
    assert(out@ + destroyed_members(c@, k as int) =~= out@);
    out
}

fn classic_setters_exec(c: &Vec<Decoded>) -> (r: Vec<usize>)
    ensures
        r@ == classic_setters(c@, 0),
{
    let mut out: Vec<usize> = Vec::new();
    let mut k: usize = 0;
    while k < c.len() && c.len() - k >= 2
        invariant
            k <= c@.len(),
            classic_setters(c@, 0) == out@ + classic_setters(c@, k as int),
        decreases c.len() - k,
    {
        let ghost before = out@;
        let (w0, w1) = (c[k], c[k + 1]);
        if w0.mnemonic == MN_LEA && w0.op0_register == REG_ESI && (w0.memory_base == REG_ESP || w0.memory_base
            == REG_EBP) && w1.mnemonic == MN_CALL && w1.op0_kind == OP_NEAR_BRANCH32 {
            out.push(w1.near_branch_target as usize);
            assert(before + (seq![w1.near_branch_target as usize] + classic_setters(c@, k + 1)) =~= out@
                + classic_setters(c@, k + 1));
        }
        k += 1;
    }
    assert(out@ + classic_setters(c@, k as int) =~= out@);
    out
}

fn classic_appends_exec(c: &Vec<Decoded>) -> (r: Vec<usize>)
    ensures
        r@ == classic_appends(c@, 0),
{
    let mut out: Vec<usize> = Vec::new();
    let mut k: usize = 0;
    while k < c.len() && c.len() - k >= 4
        invariant
            k <= c@.len(),
            classic_appends(c@, 0) == out@ + classic_appends(c@, k as int),
        decreases c.len() - k,
    {
        let ghost before = out@;
        let (w0, w1, w2, w3) = (c[k], c[k + 1], c[k + 2], c[k + 3]);
        if w0.mnemonic == MN_LEA && (w0.memory_base == REG_ESP || w0.memory_base == REG_EBP) && w1.mnemonic == MN_PUSH
            && w1.op0_register == w0.op0_register && w2.mnemonic == MN_MOV && w2.op0_register == REG_EBX
            && w2.op1_register == REG_EAX && w3.mnemonic == MN_CALL && w3.op0_kind == OP_NEAR_BRANCH32 {
            out.push(w3.near_branch_target as usize);
            assert(before + (seq![w3.near_branch_target as usize] + classic_appends(c@, k + 1)) =~= out@
                + classic_appends(c@, k + 1));
        }
        k += 1;
    }
    assert(out@ + classic_appends(c@, k as int) =~= out@);
    out
}

fn keeps_this_exec(c: &Vec<Decoded>) -> (r: bool)
    ensures
        r == exists|k: int| 0 <= k < c@.len() && keeps_this_in_edi(#[trigger] c@[k]),
{
    let mut k: usize = 0;
    while k < c.len()
        invariant
            k <= c@.len(),
            forall|j: int| 0 <= j < k ==> !keeps_this_in_edi(#[trigger] c@[j]),
        decreases c.len() - k,
    {
        if c[k].mnemonic == MN_MOV && c[k].op0_register == REG_EDI && c[k].op1_register == REG_ECX {
            assert(keeps_this_in_edi(c@[k as int]));
            return true;
        }
        k += 1;
    }
    false
}

fn writes_table_edi_exec(c: &Vec<Decoded>, table: usize) -> (r: bool)
    ensures
        r == exists|k: int| 0 <= k < c@.len() && writes_table_edi(#[trigger] c@[k], table),
{
    let mut k: usize = 0;
    while k < c.len()
        invariant
            k <= c@.len(),
            forall|j: int| 0 <= j < k ==> !writes_table_edi(#[trigger] c@[j], table),
        decreases c.len() - k,
    {
        let d = c[k];
        if d.mnemonic == MN_MOV && d.op0_kind == OP_MEMORY && d.memory_base == REG_EDI && d.displacement == 0
            && d.op1_kind == OP_IMMEDIATE32 && d.immediate32 as usize == table {
            assert(writes_table_edi(c@[k as int], table));
            return true;
        }
        k += 1;
    }
    false
}

fn resets_glyphs_edi_exec(c: &Vec<Decoded>, glyphs: usize) -> (r: bool)
    ensures
        r == exists|k: int| 0 <= k < c@.len() && resets_glyphs_edi(#[trigger] c@[k], glyphs),
{
    let mut k: usize = 0;
    while k < c.len()
        invariant
            k <= c@.len(),
            forall|j: int| 0 <= j < k ==> !resets_glyphs_edi(#[trigger] c@[j], glyphs),
        decreases c.len() - k,
    {
        let d = c[k];
        if member_of_exec(d, REG_EDI, true) == Some(glyphs) && d.op1_kind == OP_IMMEDIATE32 && d.immediate32 == u32::MAX {
            assert(resets_glyphs_edi(c@[k as int], glyphs));
            return true;
        }
        k += 1;
    }
    false
}

fn sets_flag_exec(c: &Vec<Decoded>, flag: usize) -> (r: bool)
    ensures
        r == exists|k: int| 0 <= k < c@.len() && sets_flag(#[trigger] c@[k], flag),
{
    let mut k: usize = 0;
    while k < c.len()
        invariant
            k <= c@.len(),
            forall|j: int| 0 <= j < k ==> !sets_flag(#[trigger] c@[j], flag),
        decreases c.len() - k,
    {
        let d = c[k];
        if member_of_exec(d, REG_EAX, true) == Some(flag) && d.op1_kind == OP_IMMEDIATE32 && d.immediate32 == 1 {
            assert(sets_flag(c@[k as int], flag));
            return true;
        }
        k += 1;
    }
    false
}

impl Image {
    fn marks_with_exec(&self, marker: &Vec<Decoded>, append: usize) -> (r: bool)
        requires
            image_fits(*self),
        ensures
            r == marks_with(*self, marker@, append),
    {
        let mut k: usize = 0;
        while k < marker.len() && marker.len() - k >= 2
            invariant
                k <= marker@.len(),
                image_fits(*self),
                forall|j: int| 0 <= j < k && j + 1 < marker@.len() ==> !(#[trigger] marker@[j].mnemonic == MN_PUSH
                    && marker@[j].op0_kind == OP_IMMEDIATE32 && image_bytes(*self, marker@[j].immediate32 as int, 2)
                    == Some(seq![255u8, 0u8]) && is_call(marker@[j + 1]) && marker@[j + 1].near_branch_target as usize
                    == append),
            decreases marker.len() - k,
        {
            let (w0, w1) = (marker[k], marker[k + 1]);
            if w0.mnemonic == MN_PUSH && w0.op0_kind == OP_IMMEDIATE32 && w1.mnemonic == MN_CALL
                && w1.op0_kind == OP_NEAR_BRANCH32 && w1.near_branch_target as usize == append {
                let marked = match self.read(w0.immediate32 as usize, 2) {
                    Some(b) => b.len() == 2 && b[0] == 255u8 && b[1] == 0u8,
                    None => false,
                };
                proof {
                    if let Some(b) = image_bytes(*self, w0.immediate32 as int, 2) {
                        if b.len() == 2 && b[0] == 255u8 && b[1] == 0u8 {
                            assert(b =~= seq![255u8, 0u8]);
                        }
                    }
                }
                if marked {
                    assert(marker@[k as int].mnemonic == MN_PUSH);
                    return true;
                }
            }
            k += 1;
        }
        proof {
            if marks_with(*self, marker@, append) {
                let j = choose|j: int|
                    0 <= j && j + 1 < marker@.len() && (#[trigger] marker@[j]).mnemonic == MN_PUSH && marker@[j].op0_kind
                        == OP_IMMEDIATE32 && image_bytes(*self, marker@[j].immediate32 as int, 2) == Some(
                        seq![255u8, 0u8]) && is_call(marker@[j + 1]) && marker@[j + 1].near_branch_target as usize
                        == append;
                assert(j < k);
            }
        }
        false
    }

    fn classic_display_exec(&self, set: &Vec<Decoded>, show: usize) -> (r: Option<(usize, usize, usize)>)
        requires
            image_fits(*self),
        ensures
            r == classic_display(*self, set@, show as int),
    {
        let c = match self.instructions(show, 32) {
            Some(c) => c,
            None => return None,
        };
        if c.len() != 5 || !ret0_exec(&c) || c[0].op1_register != REG_ECX || c[1].mnemonic != MN_MOV
            || c[1].op0_register != REG_ECX || c[1].op1_kind != OP_IMMEDIATE32 || c[1].immediate32 != 1
            || c[2].op1_register != REG_ECX || c[3].op1_register != REG_ECX {
            return None;
        }
        match (member_of_exec(c[0], REG_EAX, true), member_of_exec(c[2], REG_EAX, true), member_of_exec(c[3], REG_EAX, true)) {
            (Some(limit), Some(dirty), Some(glyphs)) => if limit == dirty || limit == glyphs || dirty == glyphs
                || !resets_glyphs_edi_exec(set, glyphs) {
                None
            } else {
                Some((limit, dirty, glyphs))
            },
            _ => None,
        }
    }

    fn classic_finish_exec(&self, skip: &Vec<Decoded>, member: usize, m: (usize, usize, usize), finish: usize) -> (r: bool)
        requires
            image_fits(*self),
        ensures
            r == classic_finish(*self, skip@, member, m, finish as int),
    {
        let f = match self.instructions(finish, 16) {
            Some(f) => f,
            None => return false,
        };
        if f.len() != 2 || !ret0_exec(&f) || f[0].op1_kind != OP_IMMEDIATE32 || f[0].immediate32 != 1 {
            return false;
        }
        match member_of_exec(f[0], REG_EAX, true) {
            None => false,
            Some(flag) => flag != m.0 && flag != m.1 && flag != m.2 && flag != member && sets_flag_exec(skip, flag),
        }
    }

    fn finish_shapes_exec(
        &self,
        cf: ClassicFrame,
        skip: &Vec<Decoded>,
        setter: usize,
        append: usize,
        member: usize,
        show: usize,
        m: (usize, usize, usize),
    ) -> (r: Vec<Shape>)
        requires
            image_fits(*self),
        ensures
            r@ == finish_shapes(*self, cf, skip@, setter, append, member, show, m, below(show, 128)),
    {
        let mut out: Vec<Shape> = Vec::new();
        let mut finish: usize = if show >= 128 { show - 128 } else { 0 };
        while finish < show
            invariant
                image_fits(*self),
                below(show, 128) <= finish,
                finish_shapes(*self, cf, skip@, setter, append, member, show, m, below(show, 128)) == out@
                    + finish_shapes(*self, cf, skip@, setter, append, member, show, m, finish as int),
            decreases show - finish,
        {
            let ghost before = out@;
            if self.classic_finish_exec(skip, member, m, finish) {
                let shape = Shape {
                    profile: Profile::Classic,
                    table: cf.table,
                    setter,
                    append,
                    destroy: cf.destroy,
                    tick: cf.tick,
                    text_member: member,
                    show,
                    finish,
                    history: None,
                };
                out.push(shape);
                assert(before + (seq![shape] + finish_shapes(*self, cf, skip@, setter, append, member, show, m, finish
                    + 1)) =~= out@ + finish_shapes(*self, cf, skip@, setter, append, member, show, m, finish + 1));
            }
            finish += 1;
        }
        assert(out@ + finish_shapes(*self, cf, skip@, setter, append, member, show, m, finish as int) =~= out@);
        out
    }

    fn show_shapes_exec(
        &self,
        cf: ClassicFrame,
        skip: &Vec<Decoded>,
        set: &Vec<Decoded>,
        setter: usize,
        append: usize,
        member: usize,
    ) -> (r: Vec<Shape>)
        requires
            image_fits(*self),
        ensures
            r@ == show_shapes(*self, cf, skip@, set@, setter, append, member, below(append, 2048)),
    {
        let mut out: Vec<Shape> = Vec::new();
        let mut show: usize = if append >= 2048 { append - 2048 } else { 0 };
        while show < append
            invariant
                image_fits(*self),
                below(append, 2048) <= show,
                show_shapes(*self, cf, skip@, set@, setter, append, member, below(append, 2048)) == out@ + show_shapes(
                    *self, cf, skip@, set@, setter, append, member, show as int),
            decreases append - show,
        {
            let ghost before = out@;
            if let Some(m) = self.classic_display_exec(set, show) {
                let more = self.finish_shapes_exec(cf, skip, setter, append, member, show, m);
                crate::chars::append_all(&mut out, &more);
                assert(before + (more@ + show_shapes(*self, cf, skip@, set@, setter, append, member, show + 1)) =~= out@
                    + show_shapes(*self, cf, skip@, set@, setter, append, member, show + 1));
            }
            show += 1;
        }
        assert(out@ + show_shapes(*self, cf, skip@, set@, setter, append, member, show as int) =~= out@);
        out
    }

    fn classic_append_shapes_exec(
        &self,
        cf: ClassicFrame,
        skip: &Vec<Decoded>,
        marker: &Vec<Decoded>,
        set: &Vec<Decoded>,
        setter: usize,
        member: usize,
        appends: &Vec<usize>,
    ) -> (r: Vec<Shape>)
        requires
            image_fits(*self),
        ensures
            r@ == classic_append_shapes(*self, cf, skip@, marker@, set@, setter, member, appends@, 0),
    {
        let mut out: Vec<Shape> = Vec::new();
        let mut a: usize = 0;
        while a < appends.len()
            invariant
                a <= appends@.len(),
                image_fits(*self),
                classic_append_shapes(*self, cf, skip@, marker@, set@, setter, member, appends@, 0) == out@
                    + classic_append_shapes(*self, cf, skip@, marker@, set@, setter, member, appends@, a as int),
            decreases appends.len() - a,
        {
            let ghost before = out@;
            let append = appends[a];
            if let Some(body) = self.instructions(append, 1024) {
                if ends_in_ret(&body, 4) && copies_exec(&body, REG_EBX, member) && self.marks_with_exec(marker, append) {
                    let more = self.show_shapes_exec(cf, skip, set, setter, append, member);
                    crate::chars::append_all(&mut out, &more);
                    assert(before + (more@ + classic_append_shapes(*self, cf, skip@, marker@, set@, setter, member,
                        appends@, a + 1)) =~= out@ + classic_append_shapes(*self, cf, skip@, marker@, set@, setter,
                        member, appends@, a + 1));
                }
            }
            a += 1;
        }
        assert(out@ + classic_append_shapes(*self, cf, skip@, marker@, set@, setter, member, appends@, a as int) =~= out@);
        out
    }

    fn member_shapes_exec(
        &self,
        cf: ClassicFrame,
        skip: &Vec<Decoded>,
        marker: &Vec<Decoded>,
        appends: &Vec<usize>,
        set: &Vec<Decoded>,
        setter: usize,
        members: &Vec<usize>,
    ) -> (r: Vec<Shape>)
        requires
            image_fits(*self),
        ensures
            r@ == member_shapes(*self, cf, skip@, marker@, appends@, set@, setter, members@, 0),
    {
        let mut out: Vec<Shape> = Vec::new();
        let mut j: usize = 0;
        while j < members.len()
            invariant
                j <= members@.len(),
                image_fits(*self),
                member_shapes(*self, cf, skip@, marker@, appends@, set@, setter, members@, 0) == out@ + member_shapes(
                    *self, cf, skip@, marker@, appends@, set@, setter, members@, j as int),
            decreases members.len() - j,
        {
            let ghost before = out@;
            if copies_exec(set, REG_EDI, members[j]) {
                let more = self.classic_append_shapes_exec(cf, skip, marker, set, setter, members[j], appends);
                crate::chars::append_all(&mut out, &more);
                assert(before + (more@ + member_shapes(*self, cf, skip@, marker@, appends@, set@, setter, members@, j
                    + 1)) =~= out@ + member_shapes(*self, cf, skip@, marker@, appends@, set@, setter, members@, j + 1));
            }
            j += 1;
        }
        assert(out@ + member_shapes(*self, cf, skip@, marker@, appends@, set@, setter, members@, j as int) =~= out@);
        out
    }

    fn classic_setter_shapes_exec(
        &self,
        cf: ClassicFrame,
        skip: &Vec<Decoded>,
        marker: &Vec<Decoded>,
        appends: &Vec<usize>,
        members: &Vec<usize>,
        setters: &Vec<usize>,
    ) -> (r: Vec<Shape>)
        requires
            image_fits(*self),
        ensures
            r@ == classic_setter_shapes(*self, cf, skip@, marker@, appends@, members@, setters@, 0),
    {
        let mut out: Vec<Shape> = Vec::new();
        let mut i: usize = 0;
        while i < setters.len()
            invariant
                i <= setters@.len(),
                image_fits(*self),
                classic_setter_shapes(*self, cf, skip@, marker@, appends@, members@, setters@, 0) == out@
                    + classic_setter_shapes(*self, cf, skip@, marker@, appends@, members@, setters@, i as int),
            decreases setters.len() - i,
        {
            let ghost before = out@;
            let setter = setters[i];
            if let Some(set) = self.instructions(setter, 1024) {
                if ret0_exec(&set) {
                    let more = self.member_shapes_exec(cf, skip, marker, appends, &set, setter, members);
                    crate::chars::append_all(&mut out, &more);
                    assert(before + (more@ + classic_setter_shapes(*self, cf, skip@, marker@, appends@, members@,
                        setters@, i + 1)) =~= out@ + classic_setter_shapes(*self, cf, skip@, marker@, appends@,
                        members@, setters@, i + 1));
                }
            }
            i += 1;
        }
        assert(out@ + classic_setter_shapes(*self, cf, skip@, marker@, appends@, members@, setters@, i as int) =~= out@);
        out
    }

    /// The shape of the classic profile, when the image's code supports exactly one.
    pub fn discover_classic(&self) -> (r: Option<Shape>)
        requires
            image_fits(*self),
        ensures
            r == classic_shape(*self),
    {
        proof {
            lemma_command_names();
            reveal_strlit(".?AVkcFEScriptObjString@@\0");
            vstd::string::is_ascii_spec_bytes(CLASSIC_OBJECT_TYPE);
        }
        let table = match self.named_table_slots(CLASSIC_OBJECT_TYPE.as_bytes(), 3) {
            Some(t) => t,
            None => return None,
        };
        let first = match self.word(table) {
            Some(w) => w,
            None => return None,
        };
        let deleting = match self.instructions(first, 128) {
            Some(c) => c,
            None => return None,
        };
        if !ends_in_ret(&deleting, 4) || !keeps_this_exec(&deleting) {
            return None;
        }
        let calls = call_targets_exec(&deleting);
        if calls.len() == 0 {
            return None;
        }
        let destroy = calls[0];
        let bytes = match self.read(destroy, 128) {
            Some(b) => b,
            None => return None,
        };
        let destruction = decode_until_exit(bytes.as_slice(), destroy as u64);
        if !writes_table_edi_exec(&destruction, table) {
            return None;
        }
        let tick = match self.word_after(table, 8) {
            Some(w) => w,
            None => return None,
        };
        let tc = match self.instructions(tick, 4096) {
            Some(c) => c,
            None => return None,
        };
        if !ends_in_ret(&tc, 4) {
            return None;
        }
        let str_command = match self.handler(STR_COMMAND.as_bytes(), RESET_COMMAND.as_bytes()) {
            Some(c) => c,
            None => return None,
        };
        let append_command = match self.handler(APPEND_COMMAND.as_bytes(), APPEND_MARK_COMMAND.as_bytes()) {
            Some(c) => c,
            None => return None,
        };
        let marker = match self.handler(APPEND_MARK_COMMAND.as_bytes(), CLEAR_COMMAND.as_bytes()) {
            Some(c) => c,
            None => return None,
        };
        let skip = match self.handler(SKIP_COMMAND.as_bytes(), REFEX_COMMAND.as_bytes()) {
            Some(c) => c,
            None => return None,
        };
        let setters = classic_setters_exec(&str_command);
        let appends = classic_appends_exec(&append_command);
        let members = destroyed_members_exec(&destruction);
        let cf = ClassicFrame { table, destroy, tick };
        let found = self.classic_setter_shapes_exec(cf, &skip, &marker, &appends, &members, &setters);
        sole_shape(&found)
    }
}

} // verus!
