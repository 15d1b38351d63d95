//! What the renderer asks of a character: the direction it is drawn in and
//! the script it belongs to.

use vstd::prelude::*;

verus! {

/// The direction in which a character is drawn.
#[derive(Debug, Clone, Copy, PartialEq, Eq, Structural)]
pub enum CharOrientation {
    Vertical,
    Horizontal,
}

/// The code points of hiragana.
pub open spec fn hiragana_code(code: u32) -> bool {
    0x3040 <= code <= 0x309F
}

/// The code points of hiragana and katakana.
pub open spec fn kana_code(code: u32) -> bool {
    hiragana_code(code) || 0x30A0 <= code <= 0x30FF
}

/// The code points of Japanese text: kana, the ideographs and their
/// extensions, and the punctuation that is set with them.
pub open spec fn japanese_code(code: u32) -> bool {
    ||| code == 0x30FC
    ||| code == 0x4E28
    ||| 0x3000 <= code <= 0x3040
    ||| 0xFE30 <= code <= 0xFE4F
    ||| 0xFE10 <= code <= 0xFE19
    ||| kana_code(code)
    ||| 0x3400 <= code <= 0x4DBF
    ||| 0x4E00 <= code <= 0x9FFF
    ||| 0xF900 <= code <= 0xFAFF
    ||| 0x20000 <= code <= 0x3FFFF
}

/// Whether a character belongs to Japanese text.
pub fn is_japanese(c: char) -> (b: bool)
    ensures
        b == japanese_code(c as u32),
{
    let code: u32 = c as u32;
    code == 0x30FC || code == 0x4E28 || (code >= 0x3000 && code <= 0x3040) || (code >= 0xFE30
        && code <= 0xFE4F) || (code >= 0xFE10 && code <= 0xFE19) || (code >= 0x3040 && code
        <= 0x309F) || (code >= 0x30A0 && code <= 0x30FF) || (code >= 0x3400 && code <= 0x4DBF) || (
    code >= 0x4E00 && code <= 0x9FFF) || (code >= 0xF900 && code <= 0xFAFF) || (code >= 0x20000
        && code <= 0x3FFFF)
}

/// Whether a character is hiragana or katakana.
pub fn is_japanese_kana(c: char) -> (b: bool)
    ensures
        b == kana_code(c as u32),
{
    let code: u32 = c as u32;
    (code >= 0x3040 && code <= 0x309F) || (code >= 0x30A0 && code <= 0x30FF)
}

/// Whether a character is hiragana.
pub fn is_japanese_hiragana(c: char) -> (b: bool)
    ensures
        b == hiragana_code(c as u32),
{
    let code: u32 = c as u32;
    code >= 0x3040 && code <= 0x309F
}

/// Kana are Japanese, and hiragana are kana.
pub proof fn lemma_scripts_nest(c: char)
    ensures
        hiragana_code(c as u32) ==> kana_code(c as u32),
        kana_code(c as u32) ==> japanese_code(c as u32),
{
}

} // verus!
