//! Verified text policy for the Glyphshift runtime adapters.
#![allow(unused_imports)]

use vstd::prelude::*;

pub mod unicode;
pub mod ordered;
pub mod chars;
pub mod qt_text_document;
pub mod retained;
pub mod qt_quick;
pub mod qt_translation;
pub mod console;
pub mod uia;
pub mod domain;
pub mod directwrite;
pub mod qt_painter;
pub mod inline_bytes;
pub mod raylib;
pub mod sidefx;
pub mod direct2d;
pub mod gtk3_pango;
pub mod monogame;
pub mod catsystem2;
pub mod runtime_gate;
pub mod main_thread;
pub mod capture;
pub mod font_names;
pub mod observer_loop;
pub mod uia_worker;
pub mod qt_symbols;
pub mod native_abi;
pub mod unity_metadata;
pub mod raylib_atlas;
pub mod session_slot;
pub mod unity_session;
pub mod qt_document_refresh;
pub mod qt_painter_native;
pub mod catsystem2_image;
pub mod x86;
pub mod catsystem2_shape;
pub mod catsystem2_classic;
pub mod unity_snapshot;
pub mod unity_objects;
pub mod unity_fonts;
pub mod unity_writeback;

verus! {
}
