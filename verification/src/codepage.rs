//! Text in ESC/POS code page 860 (Portuguese) and the text print job.

use vstd::prelude::*;
use crate::text::chars_of;
use crate::text::string_from_chars;
use crate::text::is_ascii_char;

verus! {

/// Code page 860 byte for a character: ASCII unchanged, the Portuguese
/// accented letters to their CP860 codes, anything else to `?`.
pub open spec fn cp860_byte(c: char) -> u8 {
    if is_ascii_char(c) {
        c as u8
    } else if c == 'á' {
        0xa0
    } else if c == 'é' {
        0x82
    } else if c == 'í' {
        0xa1
    } else if c == 'ó' {
        0xa2
    } else if c == 'ú' {
        0xa3
    } else if c == 'à' {
        0x85
    } else if c == 'â' {
        0x83
    } else if c == 'ê' {
        0x88
    } else if c == 'ô' {
        0x93
    } else if c == 'ã' {
        0x84
    } else if c == 'õ' {
        0x94
    } else if c == 'ç' {
        0x87
    } else if c == 'Á' {
        0x86
    } else if c == 'É' {
        0x90
    } else if c == 'Í' {
        0x8b
    } else if c == 'Ó' {
        0x9f
    } else if c == 'Ú' {
        0x96
    } else if c == 'À' {
        0x91
    } else if c == 'Â' {
        0x8f
    } else if c == 'Ê' {
        0x89
    } else if c == 'Ô' {
        0x8c
    } else if c == 'Ã' {
        0x8e
    } else if c == 'Õ' {
        0x99
    } else if c == 'Ç' {
        0x80
    } else {
        0x3f
    }
}

/// The CP860 encoding of a character sequence, one byte per character.
pub open spec fn cp860(s: Seq<char>) -> Seq<u8> {
    s.map_values(|c: char| cp860_byte(c))
}

/// Law: encoding keeps one byte per character; every ASCII character keeps
/// its code, and each Portuguese letter of code page 860 gets its CP860 code
/// (so none of them is printed as `?`).
pub proof fn lemma_cp860_table(s: Seq<char>)
    ensures
        cp860(s).len() == s.len(),
        forall|i: int| 0 <= i < s.len() && (s[i] as u32) < 128 ==> #[trigger] cp860(s)[i] == s[i] as u8,
        forall|i: int| 0 <= i < s.len() && s[i] == 'á' ==> #[trigger] cp860(s)[i] == 0xa0u8,
        forall|i: int| 0 <= i < s.len() && s[i] == 'é' ==> #[trigger] cp860(s)[i] == 0x82u8,
        forall|i: int| 0 <= i < s.len() && s[i] == 'í' ==> #[trigger] cp860(s)[i] == 0xa1u8,
        forall|i: int| 0 <= i < s.len() && s[i] == 'ó' ==> #[trigger] cp860(s)[i] == 0xa2u8,
        forall|i: int| 0 <= i < s.len() && s[i] == 'ú' ==> #[trigger] cp860(s)[i] == 0xa3u8,
        forall|i: int| 0 <= i < s.len() && s[i] == 'à' ==> #[trigger] cp860(s)[i] == 0x85u8,
        forall|i: int| 0 <= i < s.len() && s[i] == 'â' ==> #[trigger] cp860(s)[i] == 0x83u8,
        forall|i: int| 0 <= i < s.len() && s[i] == 'ê' ==> #[trigger] cp860(s)[i] == 0x88u8,
        forall|i: int| 0 <= i < s.len() && s[i] == 'ô' ==> #[trigger] cp860(s)[i] == 0x93u8,
        forall|i: int| 0 <= i < s.len() && s[i] == 'ã' ==> #[trigger] cp860(s)[i] == 0x84u8,
        forall|i: int| 0 <= i < s.len() && s[i] == 'õ' ==> #[trigger] cp860(s)[i] == 0x94u8,
        forall|i: int| 0 <= i < s.len() && s[i] == 'ç' ==> #[trigger] cp860(s)[i] == 0x87u8,
        forall|i: int| 0 <= i < s.len() && s[i] == 'Á' ==> #[trigger] cp860(s)[i] == 0x86u8,
        forall|i: int| 0 <= i < s.len() && s[i] == 'É' ==> #[trigger] cp860(s)[i] == 0x90u8,
        forall|i: int| 0 <= i < s.len() && s[i] == 'Í' ==> #[trigger] cp860(s)[i] == 0x8bu8,
        forall|i: int| 0 <= i < s.len() && s[i] == 'Ó' ==> #[trigger] cp860(s)[i] == 0x9fu8,
        forall|i: int| 0 <= i < s.len() && s[i] == 'Ú' ==> #[trigger] cp860(s)[i] == 0x96u8,
        forall|i: int| 0 <= i < s.len() && s[i] == 'À' ==> #[trigger] cp860(s)[i] == 0x91u8,
        forall|i: int| 0 <= i < s.len() && s[i] == 'Â' ==> #[trigger] cp860(s)[i] == 0x8fu8,
        forall|i: int| 0 <= i < s.len() && s[i] == 'Ê' ==> #[trigger] cp860(s)[i] == 0x89u8,
        forall|i: int| 0 <= i < s.len() && s[i] == 'Ô' ==> #[trigger] cp860(s)[i] == 0x8cu8,
        forall|i: int| 0 <= i < s.len() && s[i] == 'Ã' ==> #[trigger] cp860(s)[i] == 0x8eu8,
        forall|i: int| 0 <= i < s.len() && s[i] == 'Õ' ==> #[trigger] cp860(s)[i] == 0x99u8,
        forall|i: int| 0 <= i < s.len() && s[i] == 'Ç' ==> #[trigger] cp860(s)[i] == 0x80u8,
{
}

/// Code page 860 byte for one character.
pub fn cp860_char(c: char) -> (b: u8)
    ensures
        b == cp860_byte(c),
{
    if (c as u32) < 128 {
        return c as u8;
    }
    match c {
        'á' => 0xa0,
        'é' => 0x82,
        'í' => 0xa1,
        'ó' => 0xa2,
        'ú' => 0xa3,
        'à' => 0x85,
        'â' => 0x83,
        'ê' => 0x88,
        'ô' => 0x93,
        'ã' => 0x84,
        'õ' => 0x94,
        'ç' => 0x87,
        'Á' => 0x86,
        'É' => 0x90,
        'Í' => 0x8b,
        'Ó' => 0x9f,
        'Ú' => 0x96,
        'À' => 0x91,
        'Â' => 0x8f,
        'Ê' => 0x89,
        'Ô' => 0x8c,
        'Ã' => 0x8e,
        'Õ' => 0x99,
        'Ç' => 0x80,
        _ => 0x3f,
    }
}

/// Encodes text in code page 860: ASCII characters are kept, Portuguese
/// accented letters are translated, and every other character becomes `?`.
pub fn text_bytes(text: &str) -> (out: Vec<u8>)
    ensures
        out@ == cp860(text@),
{
    let chars = chars_of(text);
    let mut out: Vec<u8> = Vec::new();
    let mut i: usize = 0;
    while i < chars.len()
        invariant
            chars@ == text@,
            i <= chars@.len(),
            out@ == cp860(text@).take(i as int),
        decreases chars@.len() - i,
    {
        let b = cp860_char(chars[i]);
        assert(cp860(text@).take(i + 1) =~= cp860(text@).take(i as int).push(b));
        out.push(b);
        i = i + 1;
    }
    assert(cp860(text@).take(chars@.len() as int) =~= cp860(text@));
    out
}

/// Law: ASCII text is sent unchanged, one byte per character; any other
/// character outside the Portuguese letters of the table becomes `?`.
pub proof fn lemma_cp860_ascii(s: Seq<char>)
    ensures
        cp860(s).len() == s.len(),
        (forall|i: int| 0 <= i < s.len() ==> is_ascii_char(#[trigger] s[i])) ==> cp860(s)
            == s.map_values(|c: char| c as u8),
{
    if forall|i: int| 0 <= i < s.len() ==> is_ascii_char(#[trigger] s[i]) {
        assert(cp860(s) =~= s.map_values(|c: char| c as u8));
    }
}

/// Law: a text job starts with `ESC @ ESC t n`, carries the CP860 text, and
/// ends with a line feed.
pub proof fn lemma_text_job_shape(code_page: u8, text: Seq<char>)
    ensures
        text_job(code_page, text).take(5) == text_job_header(code_page),
        text_job(code_page, text).last() == 0x0au8,
        text_job(code_page, text).subrange(5, 5 + text.len() as int) == cp860(text),
{
    let body = text_job_header(code_page) + cp860(text);
    assert(body.take(5) =~= text_job_header(code_page));
    assert(body.push(0x0au8).take(5) =~= text_job_header(code_page));
    assert(body.subrange(5, 5 + text.len() as int) =~= cp860(text));
    assert(body.push(0x0au8).subrange(5, 5 + text.len() as int) =~= cp860(text));
}

/// `ESC @` then `ESC t n`: reset the printer and select character table `n`.
pub open spec fn text_job_header(code_page: u8) -> Seq<u8> {
    seq![0x1bu8, 0x40u8, 0x1bu8, 0x74u8, code_page]
}

/// `bytes`, with a line feed appended unless it already ends with one.
pub open spec fn ensure_final_newline(bytes: Seq<u8>) -> Seq<u8> {
    if bytes.len() > 0 && bytes.last() == 0x0au8 {
        bytes
    } else {
        bytes.push(0x0au8)
    }
}

/// The bytes of a text print job.
pub open spec fn text_job(code_page: u8, text: Seq<char>) -> Seq<u8> {
    ensure_final_newline(text_job_header(code_page) + cp860(text))
}

/// A text print job: `ESC @`, `ESC t code_page`, the text in CP860, and a
/// final line feed unless the bytes already end with one.
pub fn text_job_bytes(code_page: u8, text: &str) -> (out: Vec<u8>)
    ensures
        out@ == text_job(code_page, text@),
{
    let mut bytes: Vec<u8> = vec![0x1b, 0x40, 0x1b, 0x74, code_page];
    let mut body = text_bytes(text);
    bytes.append(&mut body);
    let n = bytes.len();
    if !(n > 0 && bytes[n - 1] == 0x0a) {
        bytes.push(0x0a);
    }
    bytes
}

/// Byte-order mark.
pub open spec fn bom() -> char {
    '\u{feff}'
}

/// Text as read from a file, without a leading byte-order mark and without
/// carriage returns.
pub open spec fn cleaned(raw: Seq<char>) -> Seq<char> {
    let s = if raw.len() > 0 && raw[0] == bom() {
        raw.drop_first()
    } else {
        raw
    };
    s.filter(|c: char| c != '\r')
}

/// Drops a leading byte-order mark and every carriage return.
pub fn clean_text(raw: &str) -> (out: String)
    ensures
        out@ == cleaned(raw@),
{
    let chars = chars_of(raw);
    let start: usize = if chars.len() > 0 && chars[0] == '\u{feff}' {
        1
    } else {
        0
    };
    let ghost s = raw@.subrange(start as int, raw@.len() as int);
    proof {
        if start == 1 {
            assert(s =~= raw@.drop_first());
        } else {
            assert(s =~= raw@);
        }
    }
    let mut kept: Vec<char> = Vec::new();
    let mut i: usize = start;
    while i < chars.len()
        invariant
            chars@ == raw@,
            start <= i <= chars@.len(),
            s == raw@.subrange(start as int, raw@.len() as int),
            kept@ == s.take(i - start).filter(|c: char| c != '\r'),
        decreases chars@.len() - i,
    {
        let c = chars[i];
        proof {
            let t = s.take(i - start);
            assert(s.take(i + 1 - start) =~= t.push(c));
            t.lemma_filter_push(c, |c: char| c != '\r');
        }
        if c != '\r' {
            kept.push(c);
        }
        i = i + 1;
    }
    proof {
        assert(s.take(chars@.len() - start) =~= s);
    }
    string_from_chars(&kept)
}

} // verus!
