use glyphshift_adapters::catsystem2::Profile;
use glyphshift_adapters::catsystem2_image::{Image, Shape, TEXT_OBJECT_TYPE};
use glyphshift_adapters::catsystem2_classic::CLASSIC_OBJECT_TYPE;
use glyphshift_adapters::catsystem2_shape::{buffer_method, ends_in_ret};
use glyphshift_adapters::x86::{
    decode_body, decode_listing, decode_until_exit, MN_JNE, MN_MOV, MN_PUSH, MN_RET, OP_IMMEDIATE32, OP_MEMORY,
    REG_EAX, REG_ECX, REG_NONE,
};

#[test]
fn unrelated_or_truncated_images_do_not_activate() {
    for size in [0, 8, 128, 1024] {
        assert!(Image { base: 0x10000, bytes: vec![0; size], executable: vec![] }.discover().is_none());
    }
}

#[test]
fn buffer_contract_rejects_wrong_stack_cleanup() {
    let bytes = [0xc2, 8, 0];
    let code = decode_listing(&bytes, 0, bytes.len());
    assert!(!ends_in_ret(&code, 4));
    assert!(!buffer_method(&code, 16));
}

#[test]
fn instructions_decode_to_their_operands() {
    // mov [ecx+0x10], eax; mov [edx], al; jne -4; ret 4
    let bytes = [0x89, 0x41, 0x10, 0x88, 0x02, 0x75, 0xfc, 0xc2, 0x04, 0x00];
    let code = decode_listing(&bytes, 0x1000, 16);
    assert_eq!(code.len(), 4);
    assert_eq!(code[0].mnemonic, MN_MOV);
    assert_eq!(code[0].op0_kind, OP_MEMORY);
    assert_eq!(code[0].memory_base, REG_ECX);
    assert_eq!(code[0].memory_index, REG_NONE);
    assert_eq!(code[0].displacement, 0x10);
    assert_eq!(code[0].op1_register, REG_EAX);
    assert_eq!(code[0].len, 3);
    assert_eq!(code[2].mnemonic, MN_JNE);
    assert_eq!(code[2].ip, 0x1005);
    assert_eq!(code[2].near_branch_target, 0x1003);
    assert_eq!(code[3].mnemonic, MN_RET);
    assert_eq!(code[3].op_count, 1);
    assert_eq!(code[3].immediate16, 4);
    assert_eq!(code[3].next_ip, 0x100a);
    assert!(ends_in_ret(&code, 4));
    assert!(buffer_method(&code, 0x10));
    assert!(!buffer_method(&code, 0x14));
    assert_eq!(decode_body(&bytes, 0x1000).map(|b| b.len()), Some(4));
    assert_eq!(decode_until_exit(&bytes, 0x1000).len(), 3);
    let immediate = decode_listing(&[0x68, 0x10, 0, 0x40, 0], 0, 1);
    assert_eq!(immediate[0].mnemonic, MN_PUSH);
    assert_eq!(immediate[0].op0_kind, OP_IMMEDIATE32);
    assert_eq!(immediate[0].immediate32, 0x400010);
}

#[test]
fn bodies_stop_at_invalid_code_and_int3() {
    assert_eq!(decode_body(&[0x90, 0xcc, 0xc3], 0).map(|b| b.len()), None);
    assert_eq!(decode_body(&[0x90, 0x90], 0).map(|b| b.len()), None);
    assert_eq!(decode_body(&[0x90, 0xc3], 0).map(|b| b.len()), Some(2));
    assert_eq!(decode_until_exit(&[0x90, 0xeb, 0xfe, 0x90], 0).len(), 1);
}

const BASE: usize = 0x40_0000;

struct Builder {
    bytes: Vec<u8>,
}

impl Builder {
    fn put(&mut self, at: usize, code: &[u8]) -> usize {
        self.bytes[at..at + code.len()].copy_from_slice(code);
        at + code.len()
    }
    fn word(&mut self, at: usize, value: usize) {
        self.put(at, &(value as u32).to_le_bytes());
    }
    fn call(&mut self, at: usize, target: usize) -> usize {
        let rel = (target as i64 - (BASE + at + 5) as i64) as i32;
        let end = self.put(at, &[0xe8]);
        self.put(end, &rel.to_le_bytes())
    }
    fn entry(&mut self, at: usize, name: &str, handler: usize) {
        self.put(at, name.as_bytes());
        self.word(at + 16, handler);
    }
}

/// An image laid out as the UTF-8 profile expects, with every method at a known offset.
fn utf8_image() -> (Image, Shape) {
    let mut b = Builder { bytes: vec![0u8; 0x2000] };
    let table = BASE + 0x44;
    let (deleting, tick, destroy) = (0x1000, 0x1010, 0x1020);
    let (h_str, h_apend, h_mark, h_skip) = (0x1040, 0x1060, 0x1080, 0x10a0);
    let (setter, append, marker) = (0x1100, 0x1140, 0x1180);
    // The terminal marker bytes and the RTTI chain: locator, table, type descriptor.
    b.put(0x10, &[0xff, 0xff, 0x00]);
    b.word(0x20 + 12, BASE + 0x100 - 8);
    b.word(0x20 + 16, BASE);
    b.word(0x40, BASE + 0x20);
    for slot in 0..4 {
        b.word(0x44 + slot * 4, BASE + if slot == 0 { deleting } else { tick });
    }
    b.put(0x100, TEXT_OBJECT_TYPE.as_bytes());
    // The script command table.
    b.entry(0x200, "str", BASE + h_str);
    b.entry(0x214, "reset", BASE + tick);
    b.entry(0x240, "apend", BASE + h_apend);
    b.entry(0x254, "apendmark", BASE + h_mark);
    b.entry(0x268, "clear", BASE + tick);
    b.entry(0x280, "skip", BASE + h_skip);
    b.entry(0x294, "refex", BASE + tick);
    // Deleting destructor, tick and destructor.
    let at = b.call(deleting, BASE + destroy);
    b.put(at, &[0xc2, 0x04, 0x00]);
    b.put(tick, &[0xc2, 0x04, 0x00]);
    let at = b.put(destroy, &[0xc7, 0x00]);
    let at = b.put(at, &(table as u32).to_le_bytes());
    b.put(at, &[0x8b, 0x41, 0x10, 0xc3]);
    // Command handlers: lea eax, [ebp-8]; mov ecx, esi; push eax; call method; ret 16.
    for (handler, method) in [(h_str, setter), (h_apend, append)] {
        let at = b.put(handler, &[0x8d, 0x45, 0xf8, 0x8b, 0xce, 0x50]);
        let at = b.call(at, BASE + method);
        b.put(at, &[0xc2, 0x10, 0x00]);
    }
    let at = b.call(h_mark, BASE + marker);
    b.put(at, &[0xc2, 0x10, 0x00]);
    // Setter: store the buffer, reset the glyph count, copy bytes, ret 4.
    b.put(setter, &[0x89, 0x41, 0x10, 0xc7, 0x41, 0x18, 0xff, 0xff, 0xff, 0xff, 0x88, 0x02, 0x75, 0xfc, 0xc2, 0x04, 0x00]);
    // Append and the getter right after it.
    b.put(append, &[0x89, 0x41, 0x10, 0x88, 0x02, 0x75, 0xfc, 0xc2, 0x04, 0x00, 0x8b, 0x41, 0x10, 0xc3]);
    // Marker command, then the display helper and the finishing helper.
    let at = b.put(marker, &[0x55, 0x8b, 0xec, 0x51, 0x68]);
    let at = b.put(at, &((BASE + 0x10) as u32).to_le_bytes());
    let at = b.call(at, BASE + append);
    let show = b.put(at, &[0x8b, 0xe5, 0x5d, 0xc3]);
    let finish = b.put(show, &[
        0x55, 0x8b, 0xec, 0x8b, 0x45, 0x08, 0x89, 0x41, 0x20, 0xc7, 0x41, 0x24, 1, 0, 0, 0, 0xc7, 0x41, 0x18, 1, 0, 0, 0,
        0x5d, 0xc2, 0x04, 0x00,
    ]);
    b.put(finish, &[0xc7, 0x41, 0x28, 1, 0, 0, 0, 0xc3]);
    let at = b.call(h_skip, BASE + finish);
    b.put(at, &[0xc2, 0x10, 0x00]);
    let image = Image { base: BASE, bytes: b.bytes, executable: vec![(BASE + 0x1000, BASE + 0x2000)] };
    let shape = Shape {
        profile: Profile::Utf8,
        table,
        setter: BASE + setter,
        append: BASE + append,
        destroy: BASE + destroy,
        tick: BASE + tick,
        text_member: 0x10,
        show: BASE + show,
        finish: BASE + finish,
        history: None,
    };
    (image, shape)
}

#[test]
fn a_utf8_text_class_is_discovered_from_its_code() {
    let (image, shape) = utf8_image();
    assert_eq!(image.named_table(TEXT_OBJECT_TYPE.as_bytes()), Some(shape.table));
    assert_eq!(image.handler(b"str", b"reset").map(|c| c.len()), Some(5));
    assert_eq!(image.commands(b"str", b"reset"), Some(vec![shape.setter]));
    assert_eq!(image.commands(b"apend", b"apendmark"), Some(vec![shape.append]));
    let set = image.instructions(shape.setter, 1024).unwrap();
    assert_eq!(image.display_methods(shape.append, &set), Some((shape.show, shape.finish)));
    assert_eq!(image.discover_utf8(), Some(shape));
    assert_eq!(image.discover(), Some(shape));
}

#[test]
fn a_second_command_entry_makes_the_handler_ambiguous() {
    let (mut image, _) = utf8_image();
    // A second "str" entry followed by "reset", pointing at another handler.
    image.bytes[0x300..0x303].copy_from_slice(b"str");
    image.bytes[0x310..0x314].copy_from_slice(&((BASE + 0x1060) as u32).to_le_bytes());
    image.bytes[0x314..0x319].copy_from_slice(b"reset");
    assert_eq!(image.handler(b"str", b"reset"), None);
    assert_eq!(image.discover(), None);
}

#[test]
fn a_setter_that_keeps_the_glyph_count_is_not_a_shape() {
    let (mut image, _) = utf8_image();
    // Turn the glyph reset into `mov dword [ecx+0x18], 0`.
    image.bytes[0x1106..0x110a].copy_from_slice(&[0, 0, 0, 0]);
    assert_eq!(image.discover(), None);
}

/// An image laid out as the classic profile expects.
fn classic_image() -> (Image, Shape) {
    let mut b = Builder { bytes: vec![0u8; 0x2000] };
    let table = BASE + 0x44;
    let (deleting, tick, destroy) = (0x1000, 0x1010, 0x1020);
    let (h_str, h_apend, h_mark, h_skip) = (0x1040, 0x1060, 0x1080, 0x10a0);
    let (setter, finish, show, append) = (0x1100, 0x1200, 0x1210, 0x1250);
    b.put(0x10, &[0xff, 0x00]);
    b.word(0x20 + 12, BASE + 0x100 - 8);
    b.word(0x20 + 16, BASE);
    b.word(0x40, BASE + 0x20);
    for slot in 0..3 {
        b.word(0x44 + slot * 4, BASE + if slot == 0 { deleting } else { tick });
    }
    b.put(0x100, CLASSIC_OBJECT_TYPE.as_bytes());
    b.entry(0x200, "str", BASE + h_str);
    b.entry(0x214, "reset", BASE + tick);
    b.entry(0x240, "apend", BASE + h_apend);
    b.entry(0x254, "apendmark", BASE + h_mark);
    b.entry(0x268, "clear", BASE + tick);
    b.entry(0x280, "skip", BASE + h_skip);
    b.entry(0x294, "refex", BASE + tick);
    // Deleting destructor (mov edi, ecx; call destroy; ret 4), tick, destructor.
    let at = b.put(deleting, &[0x8b, 0xf9]);
    let at = b.call(at, BASE + destroy);
    b.put(at, &[0xc2, 0x04, 0x00]);
    b.put(tick, &[0xc2, 0x04, 0x00]);
    let at = b.put(destroy, &[0xc7, 0x07]);
    let at = b.put(at, &(table as u32).to_le_bytes());
    b.put(at, &[0x8b, 0x47, 0x10, 0xc3]);
    // str: lea esi, [ebp-8]; call setter.
    let at = b.put(h_str, &[0x8d, 0x75, 0xf8]);
    let at = b.call(at, BASE + setter);
    b.put(at, &[0xc2, 0x10, 0x00]);
    // apend: lea eax, [ebp-8]; push eax; mov ebx, eax; call append.
    let at = b.put(h_apend, &[0x8d, 0x45, 0xf8, 0x50, 0x8b, 0xd8]);
    let at = b.call(at, BASE + append);
    b.put(at, &[0xc2, 0x10, 0x00]);
    // apendmark: push marker; call append.
    let at = b.put(h_mark, &[0x68]);
    let at = b.put(at, &((BASE + 0x10) as u32).to_le_bytes());
    let at = b.call(at, BASE + append);
    b.put(at, &[0xc2, 0x10, 0x00]);
    // skip: mov dword [eax+0x28], 1.
    b.put(h_skip, &[0xc7, 0x40, 0x28, 1, 0, 0, 0, 0xc2, 0x10, 0x00]);
    // Setter: store through edi, reset the glyph count, copy bytes, ret.
    b.put(setter, &[0x89, 0x47, 0x10, 0xc7, 0x47, 0x18, 0xff, 0xff, 0xff, 0xff, 0x88, 0x02, 0x75, 0xfc, 0xc3]);
    // Finishing and display helpers just before the append method.
    b.put(finish, &[0xc7, 0x40, 0x28, 1, 0, 0, 0, 0xc3]);
    b.put(show, &[0x89, 0x48, 0x20, 0xb9, 1, 0, 0, 0, 0x89, 0x48, 0x24, 0x89, 0x48, 0x18, 0xc3]);
    b.put(append, &[0x89, 0x43, 0x10, 0x88, 0x02, 0x75, 0xfc, 0xc2, 0x04, 0x00]);
    let image = Image { base: BASE, bytes: b.bytes, executable: vec![(BASE + 0x1000, BASE + 0x2000)] };
    let shape = Shape {
        profile: Profile::Classic,
        table,
        setter: BASE + setter,
        append: BASE + append,
        destroy: BASE + destroy,
        tick: BASE + tick,
        text_member: 0x10,
        show: BASE + show,
        finish: BASE + finish,
        history: None,
    };
    (image, shape)
}

#[test]
fn a_classic_text_class_is_discovered_from_its_code() {
    let (image, shape) = classic_image();
    assert_eq!(image.named_table_slots(CLASSIC_OBJECT_TYPE.as_bytes(), 3), Some(shape.table));
    assert_eq!(image.discover_utf8(), None);
    assert_eq!(image.discover_classic(), Some(shape));
    assert_eq!(image.discover(), Some(shape));
}

#[test]
fn a_classic_append_without_the_marker_call_is_refused() {
    let (mut image, _) = classic_image();
    // The marker command now pushes bytes that are not the classic terminal marker.
    image.bytes[0x11] = 0xff;
    assert_eq!(image.discover(), None);
}
