use vstd::prelude::*;
use vstd::string::*;

use std::sync::{Arc, Mutex};

use crate::file_store::{FileStore, SharedFile, SharedFileView};
use crate::text::{dec, digit_char, lemma_dec_reads_back, push_char, push_decimal, push_str};

verus! {

broadcast use vstd::string::group_string_axioms;

/// `std::sync::Mutex`, which guards the store shared by the handlers.
#[verifier::external_type_specification]
#[verifier::external_body]
#[verifier::reject_recursive_types(T)]
pub struct ExMutex<T: ?Sized>(Mutex<T>);

/// State shared by every handler: the store of shared files.
/// Cheap to clone (it is an `Arc`).
#[derive(Clone)]
pub struct AppState {
    store: Arc<Mutex<FileStore>>,
}

impl AppState {
    pub closed spec fn shared_store(&self) -> Arc<Mutex<FileStore>> {
        self.store
    }

    pub fn new(store: Arc<Mutex<FileStore>>) -> (r: Self)
        ensures
            r.shared_store() == store,
    {
        AppState { store }
    }

    /// The store that the handlers read.
    pub fn store(&self) -> (r: &Arc<Mutex<FileStore>>)
        ensures
            *r == self.shared_store(),
    {
        &self.store
    }
}

// ---------------------------------------------------------------------------
// percent-encoding

/// RFC 3986 unreserved characters: `A-Z a-z 0-9 - . _ ~`.
pub open spec fn is_unreserved(b: u8) -> bool {
    ||| 65 <= b <= 90
    ||| 97 <= b <= 122
    ||| 48 <= b <= 57
    ||| b == 45
    ||| b == 46
    ||| b == 95
    ||| b == 126
}

/// Upper-case hexadecimal digit for `d < 16`.
pub open spec fn hex_digit(d: nat) -> char {
    if d < 10 {
        digit_char(d)
    } else {
        ((d + 55) as u8) as char
    }
}

/// One byte, kept when unreserved, otherwise written as `%XX`.
pub open spec fn encode_byte(b: u8) -> Seq<char> {
    if is_unreserved(b) {
        seq![b as char]
    } else {
        seq!['%', hex_digit((b / 16) as nat), hex_digit((b % 16) as nat)]
    }
}

/// The percent-encoding of a byte string, byte by byte.
pub open spec fn percent_encoded(bytes: Seq<u8>) -> Seq<char>
    decreases bytes.len(),
{
    if bytes.len() == 0 {
        Seq::empty()
    } else {
        percent_encoded(bytes.drop_last()) + encode_byte(bytes.last())
    }
}

fn hex_char(d: u8) -> (c: char)
    requires
        d < 16,
    ensures
        c == hex_digit(d as nat),
{
    if d < 10 {
        (d + 48) as char
    } else {
        (d + 55) as char
    }
}

/// Minimal percent-encoding: keep RFC 3986 unreserved characters,
/// encode every other byte of the UTF-8 form as `%XX`. Output is always ASCII.
pub fn percent_encode(input: &str) -> (r: String)
    ensures
        r@ == percent_encoded(input.spec_bytes()),
{
    let bytes = input.as_bytes();
    let mut out = String::new();
    let n = bytes.len();
    for i in 0..n
        invariant
            n == bytes@.len(),
            bytes@ == input.spec_bytes(),
            out@ == percent_encoded(bytes@.take(i as int)),
    {
        let b = bytes[i];
        let ghost prefix = bytes@.take(i as int);
        assert(bytes@.take(i + 1).drop_last() =~= prefix);
        assert(bytes@.take(i + 1).last() == b);
        if (65 <= b && b <= 90) || (97 <= b && b <= 122) || (48 <= b && b <= 57) || b == 45 || b
            == 46 || b == 95 || b == 126 {
            push_char(&mut out, b as char);
            assert(out@ =~= percent_encoded(prefix) + encode_byte(b));
        } else {
            push_char(&mut out, '%');
            push_char(&mut out, hex_char(b / 16));
            push_char(&mut out, hex_char(b % 16));
            assert(out@ =~= percent_encoded(prefix) + encode_byte(b));
        }
    }
    assert(bytes@.take(n as int) =~= bytes@);
    out
}

// ---------------------------------------------------------------------------
// HTML escaping

/// One character as it appears in HTML text or in an attribute value.
pub open spec fn escape_char(c: char) -> Seq<char> {
    if c == '&' {
        "&amp;"@
    } else if c == '<' {
        "&lt;"@
    } else if c == '>' {
        "&gt;"@
    } else if c == '"' {
        "&quot;"@
    } else if c == '\'' {
        "&#39;"@
    } else {
        seq![c]
    }
}

/// Character-by-character HTML escaping.
pub open spec fn escaped(s: Seq<char>) -> Seq<char>
    decreases s.len(),
{
    if s.len() == 0 {
        Seq::empty()
    } else {
        escaped(s.drop_last()) + escape_char(s.last())
    }
}

/// Escape the five HTML special characters `& < > " '`.
pub fn escape_html(input: &str) -> (r: String)
    ensures
        r@ == escaped(input@),
{
    let mut out = String::new();
    for c in it: input.chars()
        invariant
            it.seq() == input@,
            out@ == escaped(it.seq().take(it.index())),
    {
        let ghost done = it.seq().take(it.index());
        if c == '&' {
            push_str(&mut out, "&amp;");
        } else if c == '<' {
            push_str(&mut out, "&lt;");
        } else if c == '>' {
            push_str(&mut out, "&gt;");
        } else if c == '"' {
            push_str(&mut out, "&quot;");
        } else if c == '\'' {
            push_str(&mut out, "&#39;");
        } else {
            push_char(&mut out, c);
        }
        proof {
            let next_done = it.seq().take(it.index() + 1);
            assert(next_done.drop_last() =~= done);
            assert(next_done.last() == c);
            assert(out@ =~= escaped(next_done));
        }
    }
    assert(input@.take(input@.len() as int) =~= input@);
    out
}

// ---------------------------------------------------------------------------
// human-readable sizes

pub open spec fn kib() -> nat {
    1024
}

pub open spec fn mib() -> nat {
    1048576
}

pub open spec fn gib() -> nat {
    1073741824
}

pub open spec fn tib() -> nat {
    1099511627776
}

/// The distance between neighbouring `f64` values around `b`: 1 below 2^53,
/// doubling with each further bit of `b`.
pub open spec fn f64_spacing(b: nat) -> nat
    decreases b,
{
    if b < 0x20_0000_0000_0000 {
        1
    } else {
        2 * f64_spacing(b / 2)
    }
}

/// `n / d` rounded to the nearest integer, ties to even.
pub open spec fn div_round_even(n: nat, d: nat) -> nat {
    let q = n / d;
    let r = n % d;
    if 2 * r > d || (2 * r == d && q % 2 == 1) {
        q + 1
    } else {
        q
    }
}

/// The value of `b as f64`: `b` rounded to the nearest representable `f64`,
/// ties to even.
pub open spec fn as_f64(b: nat) -> nat {
    div_round_even(b, f64_spacing(b)) * f64_spacing(b)
}

/// `bytes as f64 / unit as f64`, rounded to one decimal place (ties to even),
/// counted in tenths.
pub open spec fn tenths_of(bytes: nat, unit: nat) -> nat {
    div_round_even(as_f64(bytes) * 10, unit)
}

/// A count of tenths written with exactly one decimal place, e.g. `15` as `1.5`.
pub open spec fn one_decimal(t: nat) -> Seq<char> {
    dec(t / 10).push('.').push(digit_char(t % 10))
}

/// Human-readable size, 1024-based: whole bytes below 1 KB, otherwise the
/// largest unit that the size reaches, with one decimal place.
pub open spec fn size_text(bytes: u64) -> Seq<char> {
    if bytes >= tib() {
        one_decimal(tenths_of(bytes as nat, tib())) + " TB"@
    } else if bytes >= gib() {
        one_decimal(tenths_of(bytes as nat, gib())) + " GB"@
    } else if bytes >= mib() {
        one_decimal(tenths_of(bytes as nat, mib())) + " MB"@
    } else if bytes >= kib() {
        one_decimal(tenths_of(bytes as nat, kib())) + " KB"@
    } else {
        dec(bytes as nat) + " B"@
    }
}

fn round_div_even(n: u128, d: u128) -> (q: u128)
    requires
        d > 0,
    ensures
        q == div_round_even(n as nat, d as nat),
        q <= n / d + 1,
{
    let q = n / d;
    let r = n % d;
    if r > d - r || (r == d - r && q % 2 == 1) {
        assert(d >= 2);
        assert(q <= n / 2) by (nonlinear_arith)
            requires
                q == n / d,
                d >= 2,
        {
            vstd::arithmetic::div_mod::lemma_div_is_ordered_by_denominator(n as int, 2, d as int);
        }
        q + 1
    } else {
        q
    }
}

proof fn lemma_spacing_step(c: nat)
    requires
        c >= 0x20_0000_0000_0000,
    ensures
        f64_spacing(c) == 2 * f64_spacing(c / 2),
{
}

/// `b as f64`, as an exact integer.
fn f64_value(b: u64) -> (x: u128)
    ensures
        x == as_f64(b as nat),
        x <= 0x2_0000_0000_0000_0000,
{
    let mut c: u64 = b;
    let mut p: u64 = 1;
    while c >= 0x20_0000_0000_0000
        invariant
            f64_spacing(b as nat) == p * f64_spacing(c as nat),
            c == b / p,
            1 <= p <= 4096,
        decreases c,
    {
        proof {
            lemma_spacing_step(c as nat);
            vstd::arithmetic::div_mod::lemma_div_denominator(b as int, p as int, 2);
            assert(p * c <= b) by (nonlinear_arith)
                requires
                    c == b / p,
                    p >= 1,
            {
                vstd::arithmetic::div_mod::lemma_fundamental_div_mod(b as int, p as int);
            }
            assert(p < 2048) by (nonlinear_arith)
                requires
                    p * c <= b,
                    c >= 0x20_0000_0000_0000,
                    b < 0x1_0000_0000_0000_0000,
            ;
            let s2 = f64_spacing((c / 2) as nat);
            assert(p * (2 * s2) == (2 * p) * s2) by (nonlinear_arith);
        }
        c = c / 2;
        p = p * 2;
    }
    assert(f64_spacing(c as nat) == 1);
    assert(f64_spacing(b as nat) == p) by (nonlinear_arith)
        requires
            f64_spacing(b as nat) == p * f64_spacing(c as nat),
            f64_spacing(c as nat) == 1,
    ;
    let q = round_div_even(b as u128, p as u128);
    assert(q * p <= 0x2_0000_0000_0000_0000) by (nonlinear_arith)
        requires
            q <= c + 1,
            c < 0x20_0000_0000_0000,
            1 <= p <= 4096,
    ;
    q * (p as u128)
}

/// Appends `bytes` in `unit`s with one decimal place and the unit's suffix.
fn push_scaled(out: &mut String, bytes: u64, unit: u64, suffix: &str)
    requires
        unit >= 1024,
    ensures
        final(out)@ == old(out)@ + one_decimal(tenths_of(bytes as nat, unit as nat)) + suffix@,
{
    let x = f64_value(bytes);
    let t = round_div_even(x * 10, unit as u128);
    assert(t / 10 < 0x1_0000_0000_0000_0000) by (nonlinear_arith)
        requires
            t <= (x * 10) / (unit as int) + 1,
            x <= 0x2_0000_0000_0000_0000,
            unit >= 1024,
    {
        vstd::arithmetic::div_mod::lemma_div_is_ordered_by_denominator(x * 10, 1024, unit as int);
    }
    push_decimal(out, (t / 10) as u64);
    push_char(out, '.');
    let d: u8 = (t % 10) as u8;
    push_char(out, (d + 48) as char);
    push_str(out, suffix);
    assert(final(out)@ =~= old(out)@ + one_decimal(tenths_of(bytes as nat, unit as nat)) + suffix@);
}

/// Human-readable size, 1024-based (Windows Explorer style).
pub fn format_size(bytes: u64) -> (r: String)
    ensures
        r@ == size_text(bytes),
{
    let mut out = String::new();
    if bytes >= 1099511627776 {
        push_scaled(&mut out, bytes, 1099511627776, " TB");
    } else if bytes >= 1073741824 {
        push_scaled(&mut out, bytes, 1073741824, " GB");
    } else if bytes >= 1048576 {
        push_scaled(&mut out, bytes, 1048576, " MB");
    } else if bytes >= 1024 {
        push_scaled(&mut out, bytes, 1024, " KB");
    } else {
        push_decimal(&mut out, bytes);
        push_str(&mut out, " B");
    }
    assert(out@ =~= size_text(bytes));
    out
}

// ---------------------------------------------------------------------------
// the listing page

/// One `<li>` of the listing: a download link named after the file, and its size.
pub open spec fn listing_item(f: SharedFileView) -> Seq<char> {
    "<li><a href=\"/download/"@ + dec(f.id as nat) + "\">"@ + escaped(f.name) + "</a> <small>("@
        + size_text(f.size) + ")</small></li>"@
}

/// The items of the listing, in the files' order.
pub open spec fn listing_items(files: Seq<SharedFileView>) -> Seq<char>
    decreases files.len(),
{
    if files.len() == 0 {
        Seq::empty()
    } else {
        listing_items(files.drop_last()) + listing_item(files.last())
    }
}

/// The page body: a notice when nothing is shared, otherwise a count and the list.
pub open spec fn listing_body(files: Seq<SharedFileView>) -> Seq<char> {
    if files.len() == 0 {
        "<p>Nothing is being shared right now.</p>"@
    } else {
        "<p>"@ + dec(files.len()) + (if files.len() == 1 {
            " file"@
        } else {
            " files"@
        }) + " available:</p><ul>"@ + listing_items(files) + "</ul>"@
    }
}

/// The start of every listing page, up to the heading.
pub open spec fn listing_head() -> Seq<char> {
    "<!DOCTYPE html><html lang=\"en\"><head><meta charset=\"utf-8\"><meta name=\"viewport\" content=\"width=device-width, initial-scale=1\"><title>Mosquito</title></head><body><h1>Mosquito</h1>"@
}

/// The whole listing page.
pub open spec fn listing_page(files: Seq<SharedFileView>) -> Seq<char> {
    listing_head() + listing_body(files) + "</body></html>"@
}

fn push_listing_item(out: &mut String, f: &SharedFile)
    ensures
        final(out)@ == old(out)@ + listing_item(f@),
{
    push_str(out, "<li><a href=\"/download/");
    push_decimal(out, f.id.0);
    push_str(out, "\">");
    let name = escape_html(f.name.as_str());
    push_str(out, name.as_str());
    push_str(out, "</a> <small>(");
    let size = format_size(f.size);
    push_str(out, size.as_str());
    push_str(out, ")</small></li>");
    assert(final(out)@ =~= old(out)@ + listing_item(f@));
}

/// The page a phone sees after scanning the QR code.
pub fn render_listing(files: &[SharedFile]) -> (r: String)
    ensures
        r@ == listing_page(files@.map_values(|f: SharedFile| f@)),
{
    let ghost views = files@.map_values(|f: SharedFile| f@);
    let mut out = String::new();
    push_str(
        &mut out,
        "<!DOCTYPE html><html lang=\"en\"><head><meta charset=\"utf-8\"><meta name=\"viewport\" content=\"width=device-width, initial-scale=1\"><title>Mosquito</title></head><body><h1>Mosquito</h1>",
    );
    let n = files.len();
    if n == 0 {
        push_str(&mut out, "<p>Nothing is being shared right now.</p>");
    } else {
        push_str(&mut out, "<p>");
        push_decimal(&mut out, n as u64);
        if n == 1 {
            push_str(&mut out, " file");
        } else {
            push_str(&mut out, " files");
        }
        push_str(&mut out, " available:</p><ul>");
        let ghost start = out@;
        for i in 0..n
            invariant
                n == files@.len(),
                views == files@.map_values(|f: SharedFile| f@),
                out@ == start + listing_items(views.take(i as int)),
        {
            push_listing_item(&mut out, &files[i]);
            assert(views.take(i + 1).drop_last() =~= views.take(i as int));
            assert(out@ =~= start + listing_items(views.take(i + 1)));
        }
        assert(views.take(n as int) =~= views);
        push_str(&mut out, "</ul>");
    }
    push_str(&mut out, "</body></html>");
    assert(out@ =~= listing_page(views));
    out
}

/// The `Content-Disposition` value for a download. The plain `filename=` is
/// the percent-encoded name (for old clients); `filename*=` is the RFC 5987
/// form that lets modern browsers show the real Unicode name.
pub open spec fn disposition_value(name: Seq<char>) -> Seq<char> {
    let encoded = percent_encoded(vstd::utf8::encode_utf8(name));
    "attachment; filename=\""@ + encoded + "\"; filename*=UTF-8''"@ + encoded
}

pub fn content_disposition(name: &str) -> (r: String)
    ensures
        r@ == disposition_value(name@),
{
    let encoded = percent_encode(name);
    let mut out = String::new();
    push_str(&mut out, "attachment; filename=\"");
    push_str(&mut out, encoded.as_str());
    push_str(&mut out, "\"; filename*=UTF-8''");
    push_str(&mut out, encoded.as_str());
    assert(out@ =~= disposition_value(name@));
    out
}

// ---------------------------------------------------------------------------
// laws

/// A character that HTML would read as markup or as the end of a quoted
/// attribute value.
pub open spec fn is_markup_char(c: char) -> bool {
    c == '<' || c == '>' || c == '"' || c == '\''
}

/// Escaped text never contains a markup character, so a file name can
/// neither open a tag nor leave an attribute value.
pub proof fn lemma_escaped_has_no_markup(s: Seq<char>)
    ensures
        forall|i: int| 0 <= i < escaped(s).len() ==> !is_markup_char(#[trigger] escaped(s)[i]),
    decreases s.len(),
{
    if s.len() > 0 {
        lemma_escaped_has_no_markup(s.drop_last());
        reveal_strlit("&amp;");
        reveal_strlit("&lt;");
        reveal_strlit("&gt;");
        reveal_strlit("&quot;");
        reveal_strlit("&#39;");
        let head = escaped(s.drop_last());
        let tail = escape_char(s.last());
        assert forall|i: int| 0 <= i < escaped(s).len() implies !is_markup_char(
            #[trigger] escaped(s)[i],
        ) by {
            if i >= head.len() {
                assert(escaped(s)[i] == tail[i - head.len()]);
            } else {
                assert(escaped(s)[i] == head[i]);
            }
        }
    }
}

/// A printable ASCII character other than space (`!` to `~`).
pub open spec fn is_visible_ascii(c: char) -> bool {
    0x21 <= (c as u32) <= 0x7e
}

/// Percent-encoded text consists of printable ASCII characters only:
/// unreserved characters, `%` and upper-case hex digits.
pub proof fn lemma_percent_encoded_is_visible_ascii(bytes: Seq<u8>)
    ensures
        forall|i: int|
            0 <= i < percent_encoded(bytes).len() ==> is_visible_ascii(
                #[trigger] percent_encoded(bytes)[i],
            ),
    decreases bytes.len(),
{
    if bytes.len() > 0 {
        lemma_percent_encoded_is_visible_ascii(bytes.drop_last());
        let head = percent_encoded(bytes.drop_last());
        let b = bytes.last();
        let tail = encode_byte(b);
        assert forall|i: int| 0 <= i < percent_encoded(bytes).len() implies is_visible_ascii(
            #[trigger] percent_encoded(bytes)[i],
        ) by {
            if i >= head.len() {
                assert(percent_encoded(bytes)[i] == tail[i - head.len()]);
                assert(b / 16 < 16 && b % 16 < 16);
            } else {
                assert(percent_encoded(bytes)[i] == head[i]);
            }
        }
    }
}

/// A valid HTTP header value character: printable ASCII or space.
pub open spec fn is_header_char(c: char) -> bool {
    0x20 <= (c as u32) <= 0x7e
}

/// The `Content-Disposition` value is pure printable ASCII whatever the
/// file name, so it is always a valid header value; a non-ASCII name never
/// leaks through.
pub proof fn lemma_disposition_is_header_safe(name: Seq<char>)
    ensures
        forall|i: int|
            0 <= i < disposition_value(name).len() ==> is_header_char(
                #[trigger] disposition_value(name)[i],
            ),
{
    let encoded = percent_encoded(vstd::utf8::encode_utf8(name));
    lemma_percent_encoded_is_visible_ascii(vstd::utf8::encode_utf8(name));
    reveal_strlit("attachment; filename=\"");
    reveal_strlit("\"; filename*=UTF-8''");
    let a = "attachment; filename=\""@;
    let b = "\"; filename*=UTF-8''"@;
    let v = disposition_value(name);
    assert(v == a + encoded + b + encoded);
    assert forall|i: int| 0 <= i < v.len() implies is_header_char(#[trigger] v[i]) by {
        if i < a.len() {
            assert(v[i] == a[i]);
        } else if i < a.len() + encoded.len() {
            assert(v[i] == encoded[i - a.len()]);
        } else if i < a.len() + encoded.len() + b.len() {
            assert(v[i] == b[i - a.len() - encoded.len()]);
        } else {
            assert(v[i] == encoded[i - a.len() - encoded.len() - b.len()]);
        }
    }
}

/// Sizes below 2^53 bytes (8 PiB) convert to `f64` exactly, so the shown
/// value is the size divided by the unit, rounded to one decimal.
pub proof fn lemma_small_sizes_exact(b: nat)
    requires
        b < 0x20_0000_0000_0000,
    ensures
        as_f64(b) == b,
{
    assert(f64_spacing(b) == 1);
}

/// The unit is chosen so that the shown value is at least `1.0`.
pub proof fn lemma_scaled_value_at_least_one(b: nat, unit: nat)
    requires
        0 < unit <= b < 0x20_0000_0000_0000,
    ensures
        tenths_of(b, unit) >= 10,
{
    lemma_small_sizes_exact(b);
    assert((b * 10) / unit >= 10) by (nonlinear_arith)
        requires
            0 < unit <= b,
    {
        vstd::arithmetic::div_mod::lemma_div_is_ordered((unit * 10) as int, (b * 10) as int, unit as int);
        vstd::arithmetic::div_mod::lemma_div_multiples_vanish(10, unit as int);
    }
}

// ---------------------------------------------------------------------------
// decoding percent-encoded text

/// The value of a hexadecimal digit (either case).
pub open spec fn hex_value(c: char) -> Option<nat> {
    let u = c as u32;
    if 48 <= u <= 57 {
        Some((u - 48) as nat)
    } else if 65 <= u <= 70 {
        Some((u - 55) as nat)
    } else if 97 <= u <= 102 {
        Some((u - 87) as nat)
    } else {
        None
    }
}

/// Percent-decoding: each `%XY` with two hex digits becomes the byte `0xXY`;
/// every other character is copied as a byte.
pub open spec fn percent_decoded(s: Seq<char>) -> Seq<u8>
    decreases s.len(),
{
    if s.len() == 0 {
        Seq::empty()
    } else if s[0] == '%' && s.len() >= 3 && hex_value(s[1]) is Some && hex_value(s[2]) is Some {
        seq![(hex_value(s[1])->0 * 16 + hex_value(s[2])->0) as u8] + percent_decoded(s.skip(3))
    } else {
        seq![s[0] as u8] + percent_decoded(s.skip(1))
    }
}

proof fn lemma_hex_digit_value(d: nat)
    requires
        d < 16,
    ensures
        hex_value(hex_digit(d)) == Some(d),
{
}

/// Decoding one encoded byte followed by anything gives the byte back first.
proof fn lemma_decode_encoded_byte(b: u8, rest: Seq<char>)
    ensures
        percent_decoded(encode_byte(b) + rest) == seq![b] + percent_decoded(rest),
{
    let t = encode_byte(b) + rest;
    if is_unreserved(b) {
        assert(t[0] == b as char);
        assert(t.skip(1) =~= rest);
        assert((b as char) as u8 == b);
    } else {
        let hi = (b / 16) as nat;
        let lo = (b % 16) as nat;
        lemma_hex_digit_value(hi);
        lemma_hex_digit_value(lo);
        assert(t[0] == '%' && t[1] == hex_digit(hi) && t[2] == hex_digit(lo));
        assert(t.skip(3) =~= rest);
        let h8: u8 = b / 16;
        let l8: u8 = b % 16;
        assert(h8 * 16 + l8 == b) by (bit_vector)
            requires
                h8 == b / 16,
                l8 == b % 16,
        ;
    }
}

/// The encoding can be built from the front: first byte, then the rest.
proof fn lemma_encoded_from_front(bytes: Seq<u8>)
    requires
        bytes.len() > 0,
    ensures
        percent_encoded(bytes) == encode_byte(bytes[0]) + percent_encoded(bytes.drop_first()),
    decreases bytes.len(),
{
    if bytes.len() == 1 {
        assert(bytes.drop_last() =~= Seq::<u8>::empty());
        assert(bytes.drop_first() =~= Seq::<u8>::empty());
        assert(percent_encoded(Seq::<u8>::empty()) =~= Seq::<char>::empty());
        assert(bytes.last() == bytes[0]);
        assert(percent_encoded(bytes) =~= encode_byte(bytes[0]) + percent_encoded(
            bytes.drop_first(),
        ));
    } else {
        let init = bytes.drop_last();
        lemma_encoded_from_front(init);
        assert(init.drop_first() =~= bytes.drop_first().drop_last());
        assert(bytes.drop_first().last() == bytes.last());
        assert(percent_encoded(bytes) =~= encode_byte(bytes[0]) + percent_encoded(
            bytes.drop_first(),
        ));
    }
}

/// Percent-decoding undoes percent-encoding.
pub proof fn lemma_percent_decode_encode(bytes: Seq<u8>)
    ensures
        percent_decoded(percent_encoded(bytes)) == bytes,
    decreases bytes.len(),
{
    if bytes.len() > 0 {
        lemma_encoded_from_front(bytes);
        lemma_decode_encoded_byte(bytes[0], percent_encoded(bytes.drop_first()));
        lemma_percent_decode_encode(bytes.drop_first());
        assert(seq![bytes[0]] + bytes.drop_first() =~= bytes);
    } else {
        assert(percent_encoded(bytes) =~= Seq::<char>::empty());
    }
}

/// Different texts have different percent-encodings, so the encoded file
/// name identifies the file name.
pub proof fn lemma_percent_encode_injective(a: Seq<char>, b: Seq<char>)
    requires
        percent_encoded(vstd::utf8::encode_utf8(a)) == percent_encoded(vstd::utf8::encode_utf8(b)),
    ensures
        a == b,
{
    lemma_percent_decode_encode(vstd::utf8::encode_utf8(a));
    lemma_percent_decode_encode(vstd::utf8::encode_utf8(b));
    vstd::utf8::encode_utf8_decode_utf8(a);
    vstd::utf8::encode_utf8_decode_utf8(b);
}

// ---------------------------------------------------------------------------
// answering a download request

/// How a `GET /download/{id}` request is answered.
#[derive(Debug)]
pub enum DownloadReply {
    /// 404: no file is shared under this id, or it cannot be opened.
    NotFound,
    /// 500: the file was opened but its length could not be read.
    Unreadable,
    /// 200: the file's bytes, sent as an attachment with these headers.
    Attachment { content_type: String, content_length: u64, content_disposition: String },
}

/// The decision for a download: `file` is the shared file registered under
/// the requested id (if any), `opened` whether it could be opened, and
/// `current_len` its length as read from the opened file (if that succeeded).
/// Content-Length is the current length, not the size recorded when the file
/// was added, so it always matches the bytes that are sent.
pub fn download_reply(file: Option<SharedFile>, opened: bool, current_len: Option<u64>) -> (r:
    DownloadReply)
    ensures
        (file is None || !opened) ==> r is NotFound,
        (file is Some && opened && current_len is None) ==> r is Unreadable,
        file matches Some(f) ==> (opened ==> (current_len matches Some(n) ==> (
        r matches DownloadReply::Attachment { content_type, content_length, content_disposition }
            && content_type@ == "application/octet-stream"@ && content_length == n
            && content_disposition@ == disposition_value(f.name@)))),
{
    match file {
        None => DownloadReply::NotFound,
        Some(f) => {
            if !opened {
                DownloadReply::NotFound
            } else {
                match current_len {
                    None => DownloadReply::Unreadable,
                    Some(n) => DownloadReply::Attachment {
                        content_type: String::from_str("application/octet-stream"),
                        content_length: n,
                        content_disposition: content_disposition(f.name.as_str()),
                    },
                }
            }
        },
    }
}

impl DownloadReply {
    /// The HTTP status code of the reply.
    pub fn status_code(&self) -> (r: u16)
        ensures
            r == match self {
                DownloadReply::NotFound => 404u16,
                DownloadReply::Unreadable => 500u16,
                DownloadReply::Attachment { .. } => 200u16,
            },
    {
        match self {
            DownloadReply::NotFound => 404,
            DownloadReply::Unreadable => 500,
            DownloadReply::Attachment { .. } => 200,
        }
    }

    /// The plain-text body of an error reply (an attachment's body is the file).
    pub fn error_body(&self) -> (r: Option<String>)
        ensures
            match self {
                DownloadReply::NotFound => r matches Some(b) && b@ == "not found\n"@,
                DownloadReply::Unreadable => r matches Some(b) && b@ == "could not read file\n"@,
                DownloadReply::Attachment { .. } => r is None,
            },
    {
        match self {
            DownloadReply::NotFound => Some(String::from_str("not found\n")),
            DownloadReply::Unreadable => Some(String::from_str("could not read file\n")),
            DownloadReply::Attachment { .. } => None,
        }
    }
}

// ---------------------------------------------------------------------------
// what the shown texts mean

/// `div_round_even(n, d)` is `n / d` rounded to the nearest integer: it is
/// at most half a unit away, and an exact half goes to the even neighbour.
pub proof fn lemma_div_round_even_nearest(n: nat, d: nat)
    requires
        d > 0,
    ensures
        2 * (div_round_even(n, d) * d) <= 2 * n + d,
        2 * n <= 2 * (div_round_even(n, d) * d) + d,
        (2 * n + d == 2 * (div_round_even(n, d) * d) || 2 * n == 2 * (div_round_even(n, d) * d) + d)
            ==> div_round_even(n, d) % 2 == 0,
{
    let q0 = n / d;
    let r = n % d;
    vstd::arithmetic::div_mod::lemma_fundamental_div_mod(n as int, d as int);
    assert(n == q0 * d + r);
    assert(0 <= r < d);
    let q = div_round_even(n, d);
    if 2 * r > d || (2 * r == d && q0 % 2 == 1) {
        assert(q == q0 + 1);
        assert(q * d == q0 * d + d) by (nonlinear_arith)
            requires
                q == q0 + 1,
        ;
    } else {
        assert(q == q0);
    }
}

/// `as_f64(b)` is `b` rounded to the nearest neighbouring `f64`: exact below
/// 2^53, and otherwise at most half a spacing away.
pub proof fn lemma_as_f64_nearest(b: nat)
    ensures
        2 * as_f64(b) <= 2 * b + f64_spacing(b),
        2 * b <= 2 * as_f64(b) + f64_spacing(b),
        b < 0x20_0000_0000_0000 ==> as_f64(b) == b,
    decreases b,
{
    lemma_spacing_positive(b);
    lemma_div_round_even_nearest(b, f64_spacing(b));
    if b < 0x20_0000_0000_0000 {
        lemma_small_sizes_exact(b);
    }
}

proof fn lemma_spacing_positive(b: nat)
    ensures
        f64_spacing(b) >= 1,
    decreases b,
{
    if b >= 0x20_0000_0000_0000 {
        lemma_spacing_positive(b / 2);
    }
}

/// The size text is the number of bytes below 1 KB, and otherwise the size
/// divided by the largest unit it reaches, rounded to one decimal (ties to
/// even): the digits before the point are the rounded tenths divided by ten,
/// the one after it their remainder, never the truncated quotient.
pub proof fn lemma_size_text_shows_rounded_value(b: u64)
    ensures
        b < 1024 ==> size_text(b) == dec(b as nat) + " B"@,
        1024 <= b < 1048576 ==> size_text(b) == dec(div_round_even(b as nat * 10, 1024) / 10) + seq![
            '.',
            digit_char(div_round_even(b as nat * 10, 1024) % 10),
        ] + " KB"@,
        1048576 <= b < 1073741824 ==> size_text(b) == dec(div_round_even(b as nat * 10, 1048576) / 10)
            + seq!['.', digit_char(div_round_even(b as nat * 10, 1048576) % 10)] + " MB"@,
        1073741824 <= b < 1099511627776 ==> size_text(b) == dec(
            div_round_even(b as nat * 10, 1073741824) / 10,
        ) + seq!['.', digit_char(div_round_even(b as nat * 10, 1073741824) % 10)] + " GB"@,
        1099511627776 <= b ==> size_text(b) == dec(div_round_even(as_f64(b as nat) * 10, 1099511627776) / 10)
            + seq!['.', digit_char(div_round_even(as_f64(b as nat) * 10, 1099511627776) % 10)]
            + " TB"@,
{
    if b < 1099511627776 {
        lemma_small_sizes_exact(b as nat);
    }
    let t = if b >= 1099511627776 {
        tenths_of(b as nat, tib())
    } else if b >= 1073741824 {
        tenths_of(b as nat, gib())
    } else if b >= 1048576 {
        tenths_of(b as nat, mib())
    } else {
        tenths_of(b as nat, kib())
    };
    assert(one_decimal(t) =~= dec(t / 10) + seq!['.', digit_char(t % 10)]);
}

/// The text announcing the shared files, for a non-empty list: the count,
/// then `file` or `files`.
pub open spec fn count_announcement(n: nat) -> Seq<char> {
    "<p>"@ + dec(n) + (if n == 1 {
        " file"@
    } else {
        " files"@
    }) + " available:</p><ul>"@
}

/// The listing page opens with the count of shared files, written in full
/// decimal (it reads back as the number of files); with no files it shows
/// the notice that nothing is shared.
pub proof fn lemma_listing_announces_count(files: Seq<SharedFileView>)
    ensures
        files.len() == 0 ==> listing_page(files) == listing_head() + "<p>Nothing is being shared right now.</p>"@
            + "</body></html>"@,
        files.len() > 0 ==> (listing_head() + count_announcement(files.len())).is_prefix_of(
            listing_page(files),
        ),
        crate::text::digits_value(dec(files.len())) == files.len(),
{
    lemma_dec_reads_back(files.len());
    if files.len() > 0 {
        let pre = listing_head() + count_announcement(files.len());
        let page = listing_page(files);
        assert(page == pre + listing_items(files) + "</ul>"@ + "</body></html>"@);
        assert(page.take(pre.len() as int) =~= pre);
    }
}

/// Each byte is kept when it is an RFC 3986 unreserved character (a letter,
/// a digit, `-`, `.`, `_` or `~`) and otherwise becomes `%` followed by its
/// two upper-case hex digits.
pub proof fn lemma_encode_byte_cases(b: u8)
    ensures
        ((65 <= b <= 90) || (97 <= b <= 122) || (48 <= b <= 57) || b == 45 || b == 46 || b == 95
            || b == 126) ==> encode_byte(b) == seq![b as char],
        !((65 <= b <= 90) || (97 <= b <= 122) || (48 <= b <= 57) || b == 45 || b == 46 || b == 95
            || b == 126) ==> {
            &&& encode_byte(b).len() == 3
            &&& encode_byte(b)[0] == '%'
            &&& encode_byte(b)[1] as u32 == (if b / 16 < 10 {
                48 + b / 16
            } else {
                55 + b / 16
            })
            &&& encode_byte(b)[2] as u32 == (if b % 16 < 10 {
                48 + b % 16
            } else {
                55 + b % 16
            })
        },
{
}

/// A name made only of unreserved characters is written unchanged.
pub proof fn lemma_unreserved_text_is_kept(s: Seq<char>)
    requires
        forall|i: int|
            0 <= i < s.len() ==> ('A' <= #[trigger] s[i] <= 'Z') || ('a' <= s[i] <= 'z') || (
            '0' <= s[i] <= '9') || s[i] == '-' || s[i] == '.' || s[i] == '_' || s[i] == '~',
    ensures
        percent_encoded(vstd::utf8::encode_utf8(s)) == s,
{
    assert forall|i: int| 0 <= i < s.len() implies '\0' <= #[trigger] s[i] <= '\u{7f}' by {
    }
    assert(vstd::utf8::is_ascii_chars(s));
    vstd::utf8::is_ascii_chars_encode_utf8(s);
    lemma_kept_bytes(vstd::utf8::encode_utf8(s), s);
}

proof fn lemma_kept_bytes(bytes: Seq<u8>, s: Seq<char>)
    requires
        bytes.len() == s.len(),
        forall|i: int| 0 <= i < s.len() ==> #[trigger] s[i] as u8 == bytes[i],
        forall|i: int|
            0 <= i < s.len() ==> ('A' <= #[trigger] s[i] <= 'Z') || ('a' <= s[i] <= 'z') || (
            '0' <= s[i] <= '9') || s[i] == '-' || s[i] == '.' || s[i] == '_' || s[i] == '~',
    ensures
        percent_encoded(bytes) == s,
    decreases bytes.len(),
{
    if bytes.len() > 0 {
        let n = bytes.len() - 1;
        lemma_kept_bytes(bytes.drop_last(), s.drop_last());
        let c = s[n];
        assert(s[n] as u8 == bytes[n]);
        lemma_encode_byte_cases(bytes[n]);
        assert(c <= '\u{7f}');
        assert(((c as u8) as char) == c);
        assert((bytes[n] as char) == c);
        assert(percent_encoded(bytes) =~= s);
    } else {
        assert(s =~= Seq::<char>::empty());
    }
}

} // verus!
