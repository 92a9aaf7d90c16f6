use vstd::prelude::*;
use pc_keyboard::{layouts::Us104Key, DecodedKey, HandleControl, PS2Keyboard, ScancodeSet1};

verus! {

/// Turns the keyboard's scancodes (set 1, US layout, Ctrl keys passed
/// through) into typed characters. It holds pc-keyboard's `PS2Keyboard`,
/// whose state (a pending prefix byte, Shift, Caps Lock, Num Lock) Verus
/// does not see.
#[verifier::external_body]
pub struct KeyDecoder {
    keyboard: PS2Keyboard<Us104Key, ScancodeSet1>,
}

/// The scancode bytes a decoder has been given since it was made, first to
/// last: the whole of what its state depends on.
pub uninterp spec fn decoder_input(d: KeyDecoder) -> Seq<u8>;

/// The character that a fresh decoder (scancode set 1, US layout, Ctrl keys
/// passed through) types on the last byte of `input`, once it has taken
/// all the bytes before it; `None` when that byte types nothing.
pub uninterp spec fn typed_char(input: Seq<u8>) -> Option<char>;

/// `PS2Keyboard::new(ScancodeSet1::new(), layouts::Us104Key,
/// HandleControl::Ignore)` of pc-keyboard: a decoder at the start of a
/// scancode, with no key held.
#[verifier::external_body]
fn start_decoder() -> (d: KeyDecoder)
    ensures
        decoder_input(d) == Seq::<u8>::empty(),
{
    KeyDecoder { keyboard: PS2Keyboard::new(ScancodeSet1::new(), Us104Key, HandleControl::Ignore) }
}

/// `add_byte` then, for a key event, `process_keyevent` of pc-keyboard's
/// `PS2Keyboard`, keeping only a Unicode character. The decoder is
/// deterministic: its state is a function of the bytes it was given, so
/// the character is named as a function of them (`typed_char`), not
/// stated. What holds of every outcome: a byte from 0x80 on is a prefix, a
/// key release or an unknown code, none of which types anything; and the
/// US layout, with Ctrl passed through, types only ASCII characters.
#[verifier::external_body]
fn decode_byte(d: &mut KeyDecoder, byte: u8) -> (c: Option<char>)
    ensures
        decoder_input(*final(d)) == decoder_input(*old(d)).push(byte),
        c == typed_char(decoder_input(*final(d))),
        byte >= 0x80 ==> c is None,
        c matches Some(ch) ==> (ch as u32) < 0x80,
{
    match d.keyboard.add_byte(byte) {
        Ok(Some(event)) => match d.keyboard.process_keyevent(event) {
            Some(DecodedKey::Unicode(ch)) => Some(ch),
            _ => None,
        },
        _ => None,
    }
}

impl KeyDecoder {
    /// A decoder at the start of a scancode, with no key held: it has been
    /// given no byte yet.
    pub fn new() -> (d: Self)
        ensures
            decoder_input(d) == Seq::<u8>::empty(),
    {
        start_decoder()
    }

    /// Takes the next scancode byte and gives the character it types, if
    /// any (see `typed_char`): never one for a byte from 0x80 on (a prefix
    /// or a key release), and only ASCII characters.
    pub fn feed(&mut self, scancode: u8) -> (c: Option<char>)
        ensures
            decoder_input(*final(self)) == decoder_input(*old(self)).push(scancode),
            c == typed_char(decoder_input(*final(self))),
            scancode >= 0x80 ==> c is None,
            c matches Some(ch) ==> (ch as u32) < 0x80,
    {
        decode_byte(self, scancode)
    }
}

} // verus!
