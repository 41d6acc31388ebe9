//! Base64, QR codes, bar codes and the data URIs that carry them.
use vstd::prelude::*;

use base64::Engine;

use crate::err::{CustomError, other_error_with};
use crate::err;
use crate::err::ErrorView;
use crate::text;

verus! {

// ---------------------------------------------------------------------------
// The outside functions
// ---------------------------------------------------------------------------

/// The padded standard base64 text of some bytes.
pub uninterp spec fn base64_text(bytes: Seq<u8>) -> Seq<char>;

/// The bytes of a padded standard base64 text, or the message with which it is refused.
pub uninterp spec fn base64_bytes(text: Seq<char>) -> Result<Seq<u8>, Seq<char>>;

/// The picture of the QR code of a text (width, height, grey values row by row), or
/// the message with which the text is refused.
pub uninterp spec fn qr_picture(content: Seq<char>) -> Result<(u32, u32, Seq<u8>), Seq<char>>;

/// The PNG file of a grey picture, or the message with which it is refused.
pub uninterp spec fn png_file(width: u32, height: u32, pixels: Seq<u8>) -> Result<
    Seq<u8>,
    Seq<char>,
>;

/// The bars (1) and gaps (0) of a Code 128 bar code, or the message with which its
/// data is refused.
pub uninterp spec fn code128_bars(data: Seq<char>) -> Result<Seq<u8>, Seq<char>>;

/// The PNG file of a bar code, or the message with which it is refused.
pub uninterp spec fn bars_file(bars: Seq<u8>, height: u32) -> Result<Seq<u8>, Seq<char>>;

/// What the outcome of a function that returns bytes holds.
pub open spec fn bytes_result(r: Result<Vec<u8>, String>) -> Result<Seq<u8>, Seq<char>> {
    match r {
        Ok(bytes) => Ok(bytes@),
        Err(message) => Err(message@),
    }
}

/// The outcome of reading a text that holds `bytes`.
pub open spec fn holds(bytes: Seq<u8>) -> Result<Seq<u8>, Seq<char>> {
    Ok(bytes)
}

/// A grey picture: one value for each pixel, row by row.
pub struct GreyPicture {
    pub width: u32,
    pub height: u32,
    pub pixels: Vec<u8>,
}

/// What the outcome of drawing a QR code holds.
pub open spec fn picture_result(r: Result<GreyPicture, String>) -> Result<
    (u32, u32, Seq<u8>),
    Seq<char>,
> {
    match r {
        Ok(p) => Ok((p.width, p.height, p.pixels@)),
        Err(message) => Err(message@),
    }
}

/// A drawn picture has a value for each of its pixels.
pub open spec fn is_full(r: Result<GreyPicture, String>) -> bool {
    r matches Ok(p) ==> p.pixels@.len() == p.width * p.height
}

/// `base64::engine::general_purpose::STANDARD.encode`. Decoding what it gives gives
/// the bytes back.
#[verifier::external_body]
pub(crate) fn encode_base64(bytes: &[u8]) -> (r: String)
    ensures
        r@ == base64_text(bytes@),
        base64_bytes(r@) == holds(bytes@),
{
    base64::engine::general_purpose::STANDARD.encode(bytes)
}

/// `base64::engine::general_purpose::STANDARD.decode`; an error is given by its text.
#[verifier::external_body]
pub(crate) fn decode_base64(text: &str) -> (r: Result<Vec<u8>, String>)
    ensures
        bytes_result(r) == base64_bytes(text@),
{
    base64::engine::general_purpose::STANDARD.decode(text).map_err(|error| error.to_string())
}

/// `qrcode::QrCode::new` and its rendering to `image::Luma<u8>` with
/// `Renderer::build`; an error is given by its text. The picture has a value for each
/// of its pixels.
#[verifier::external_body]
fn draw_qr(content: &str) -> (r: Result<GreyPicture, String>)
    ensures
        picture_result(r) == qr_picture(content@),
        is_full(r),
{
    let code = qrcode::QrCode::new(content).map_err(|error| error.to_string())?;
    let image = code.render::<image::Luma<u8>>().build();
    Ok(GreyPicture { width: image.width(), height: image.height(), pixels: image.into_raw() })
}

/// `image::DynamicImage::write_to` with `image::ImageFormat::Png` on a grey picture;
/// an error is given by its text.
#[verifier::external_body]
fn write_png(picture: GreyPicture) -> (r: Result<Vec<u8>, String>)
    requires
        picture.pixels@.len() == picture.width * picture.height,
    ensures
        bytes_result(r) == png_file(picture.width, picture.height, picture.pixels@),
{
    let buffer = image::GrayImage::from_raw(picture.width, picture.height, picture.pixels);
    let mut bytes = Vec::new();
    image::DynamicImage::ImageLuma8(buffer.unwrap())
        .write_to(&mut std::io::Cursor::new(&mut bytes), image::ImageFormat::Png)
        .map_err(|error| error.to_string())?;
    Ok(bytes)
}

/// The character sets of Code 128.
#[derive(PartialEq, Eq, Structural, Clone, Copy)]
pub enum CharSet {
    A,
    B,
    C,
}

/// The character set that a mark switches to.
pub open spec fn set_of_mark(c: char) -> Option<CharSet> {
    if c == 'À' {
        Some(CharSet::A)
    } else if c == 'Ɓ' {
        Some(CharSet::B)
    } else if c == 'Ć' {
        Some(CharSet::C)
    } else {
        None
    }
}

/// The number of the symbol that a bar code starts with.
pub open spec fn start_number(set: CharSet) -> int {
    match set {
        CharSet::A => 103,
        CharSet::B => 104,
        CharSet::C => 105,
    }
}

/// The number of the symbol that stands for one character of a set. Set C has pairs of
/// digits beside these.
pub open spec fn symbol_number(set: CharSet, c: char) -> Option<int> {
    match set {
        CharSet::A => if ' ' <= c <= '_' {
            Some(c as int - 32)
        } else if ' ' > c {
            Some(c as int + 64)
        } else if c == 'Ɓ' {
            Some(100)
        } else if c == '\u{17c}' {
            Some(101)
        } else {
            shared_number(c)
        },
        CharSet::B => if ' ' <= c <= '~' {
            Some(c as int - 32)
        } else if c == '\u{f7}' {
            Some(95)
        } else if c == '\u{17c}' {
            Some(100)
        } else if c == 'À' {
            Some(101)
        } else {
            shared_number(c)
        },
        CharSet::C => if c == 'Ɓ' {
            Some(100)
        } else if c == 'À' {
            Some(101)
        } else if c == '\u{179}' {
            Some(102)
        } else {
            None
        },
    }
}

/// The number of a symbol that the sets A and B share.
pub open spec fn shared_number(c: char) -> Option<int> {
    if c == '\u{17b}' {
        Some(96)
    } else if c == '\u{17a}' {
        Some(97)
    } else if c == '\u{17d}' {
        Some(98)
    } else if c == 'Ć' {
        Some(99)
    } else if c == '\u{179}' {
        Some(102)
    } else {
        None
    }
}

/// How far the data of a bar code was read: the character set, the first digit of a
/// pair, how many symbols there are, and the sum of their numbers, each taken as often
/// as its place says.
pub struct Symbols {
    pub set: CharSet,
    pub digit: Option<int>,
    pub count: int,
    pub sum: int,
}

/// One more symbol.
pub open spec fn with_symbol(symbols: Symbols, number: int) -> Symbols {
    Symbols { count: symbols.count + 1, sum: symbols.sum + number * symbols.count, ..symbols }
}

/// One more character of the data; nothing where it is refused.
pub open spec fn with_char(symbols: Symbols, c: char) -> Option<Symbols> {
    if symbols.set == CharSet::C && text::is_ascii_digit(c) {
        let digit = c as int - 48;
        Some(
            match symbols.digit {
                None => Symbols { digit: Some(digit), ..symbols },
                Some(first) => with_symbol(
                    Symbols { digit: None, ..symbols },
                    first * 10 + digit,
                ),
            },
        )
    } else if set_of_mark(c) is Some && symbols.digit is Some {
        None
    } else {
        match symbol_number(symbols.set, c) {
            None => None,
            Some(number) => Some(
                Symbols {
                    set: match set_of_mark(c) {
                        Some(set) => set,
                        None => symbols.set,
                    },
                    ..with_symbol(symbols, number)
                },
            ),
        }
    }
}

/// The symbols of the data of a bar code; nothing where a character is refused.
pub open spec fn symbols(data: Seq<char>) -> Option<Symbols>
    decreases data.len(),
{
    if data.len() == 0 {
        None
    } else if data.len() == 1 {
        match set_of_mark(data[0]) {
            Some(set) => Some(Symbols { set, digit: None, count: 1, sum: start_number(set) }),
            None => None,
        }
    } else {
        match symbols(data.drop_last()) {
            Some(before) => with_char(before, data.last()),
            None => None,
        }
    }
}

/// The checksum of a bar code with this data is computed in 32 bits without an
/// overflow. Data that is refused has none.
pub open spec fn checksum_fits(data: Seq<char>) -> bool {
    match symbols(data) {
        Some(all) => all.digit is None ==> all.sum <= i32::MAX,
        None => true,
    }
}

/// A picture of so many bars fits the 32 bits of its width, and so do its pixels, four
/// bytes each, the machine's memory.
pub open spec fn bars_fit(bars: nat, height: u32) -> bool {
    bars <= u32::MAX && bars * height * 4 <= usize::MAX
}

/// `barcoders::sym::code128::Code128::new` and `encode`; an error is given by its
/// text. The checksum is a sum of 32 bits, which data that the precondition leaves out
/// overflows.
#[verifier::external_body]
fn code128(data: &str) -> (r: Result<Vec<u8>, String>)
    requires
        checksum_fits(data@),
    ensures
        bytes_result(r) == code128_bars(data@),
{
    barcoders::sym::code128::Code128::new(data)
        .map(|code| code.encode())
        .map_err(|error| error.to_string())
}

/// `barcoders::generators::image::Image::png` and `generate`; an error is given by
/// its text. The picture is as wide as there are bars.
#[verifier::external_body]
fn draw_bars(bars: &[u8], height: u32) -> (r: Result<Vec<u8>, String>)
    requires
        bars_fit(bars@.len(), height),
    ensures
        bytes_result(r) == bars_file(bars@, height),
{
    barcoders::generators::image::Image::png(height)
        .generate(bars)
        .map_err(|error| error.to_string())
}

// ---------------------------------------------------------------------------
// Data URIs
// ---------------------------------------------------------------------------

/// A PNG file as a data URI.
pub open spec fn png_uri(file: Seq<u8>) -> Seq<char> {
    "data:image/png;base64,"@ + base64_text(file)
}

/// The data URI of a QR picture, or the error in its place.
pub open spec fn picture_uri(drawn: Result<(u32, u32, Seq<u8>), Seq<char>>) -> Result<
    Seq<char>,
    ErrorView,
> {
    match drawn {
        Err(message) => Err(ErrorView::QrError(message)),
        Ok((width, height, pixels)) => match png_file(width, height, pixels) {
            Err(message) => Err(ErrorView::ImageError(message)),
            Ok(file) => Ok(png_uri(file)),
        },
    }
}

/// The data URI of the QR code of a text.
pub open spec fn qr_uri(content: Seq<char>) -> Result<Seq<char>, ErrorView> {
    picture_uri(qr_picture(content))
}

/// The data of a Code 128 bar code: the content, after the mark of character set B
/// where it does not start with the mark of a character set.
pub open spec fn barcode_data(content: Seq<char>) -> Seq<char> {
    if content.len() > 0 && (content[0] == 'À' || content[0] == 'Ɓ' || content[0] == 'Ć') {
        content
    } else {
        seq!['Ɓ'] + content
    }
}

/// The data URI of a bar code, 60 pixels high, or the error in its place. One with too
/// many bars for a picture is refused.
pub open spec fn bars_uri(bars: Result<Seq<u8>, Seq<char>>) -> Result<Seq<char>, ErrorView> {
    match bars {
        Err(message) => Err(ErrorView::OtherLibraryError("条形码内容非法: "@ + message)),
        Ok(bars) => if bars_fit(bars.len(), 60) {
            match bars_file(bars, 60) {
                Err(message) => Err(ErrorView::OtherLibraryError("条形码生成失败: "@ + message)),
                Ok(file) => Ok(png_uri(file)),
            }
        } else {
            Err(ErrorView::OtherLibraryError("条形码生成失败: "@ + "too many bars"@))
        },
    }
}

/// The data URI of the bar code of a text. One whose checksum overflows is refused.
pub open spec fn barcode_uri(content: Seq<char>) -> Result<Seq<char>, ErrorView> {
    if checksum_fits(barcode_data(content)) {
        bars_uri(code128_bars(barcode_data(content)))
    } else {
        Err(ErrorView::OtherLibraryError("条形码内容非法: "@ + "checksum overflow"@))
    }
}

/// A page as a data URL.
pub open spec fn page_url(html: Seq<char>) -> Seq<char> {
    "data:text/html;base64,"@ + base64_text(vstd::utf8::encode_utf8(html))
}

fn png_data_uri(file: &[u8]) -> (r: String)
    ensures
        r@ == png_uri(file@),
{
    let mut r = "data:image/png;base64,".to_owned();
    r.append(encode_base64(file).as_str());
    r
}

/// The PNG data URI of a QR picture, or the error in its place.
pub fn picture_data_uri(drawn: Result<GreyPicture, String>) -> (r: Result<String, CustomError>)
    requires
        is_full(drawn),
    ensures
        err::told(r) == picture_uri(picture_result(drawn)),
{
    match drawn {
        Err(message) => Err(CustomError::QrError(message)),
        Ok(picture) => match write_png(picture) {
            Err(message) => Err(CustomError::ImageError(message)),
            Ok(file) => Ok(png_data_uri(file.as_slice())),
        },
    }
}

/// The data URI of the QR code of `content`.
pub fn qr_code_data_uri(content: &str) -> (r: Result<String, CustomError>)
    ensures
        err::told(r) == qr_uri(content@),
{
    picture_data_uri(draw_qr(content))
}

fn shared_value(c: char) -> (r: Option<u32>)
    ensures
        match r {
            Some(n) => shared_number(c) == Some(n as int) && n <= 105,
            None => shared_number(c) is None,
        },
{
    if c == '\u{17b}' {
        Some(96)
    } else if c == '\u{17a}' {
        Some(97)
    } else if c == '\u{17d}' {
        Some(98)
    } else if c == 'Ć' {
        Some(99)
    } else if c == '\u{179}' {
        Some(102)
    } else {
        None
    }
}

fn symbol_value(set: CharSet, c: char) -> (r: Option<u32>)
    ensures
        match r {
            Some(n) => symbol_number(set, c) == Some(n as int) && n <= 105,
            None => symbol_number(set, c) is None,
        },
{
    match set {
        CharSet::A => if ' ' <= c && c <= '_' {
            Some(c as u32 - 32)
        } else if ' ' > c {
            Some(c as u32 + 64)
        } else if c == 'Ɓ' {
            Some(100)
        } else if c == '\u{17c}' {
            Some(101)
        } else {
            shared_value(c)
        },
        CharSet::B => if ' ' <= c && c <= '~' {
            Some(c as u32 - 32)
        } else if c == '\u{f7}' {
            Some(95)
        } else if c == '\u{17c}' {
            Some(100)
        } else if c == 'À' {
            Some(101)
        } else {
            shared_value(c)
        },
        CharSet::C => if c == 'Ɓ' {
            Some(100)
        } else if c == 'À' {
            Some(101)
        } else if c == '\u{179}' {
            Some(102)
        } else {
            None
        },
    }
}

fn marked_set(c: char) -> (r: Option<CharSet>)
    ensures
        r == set_of_mark(c),
{
    if c == 'À' {
        Some(CharSet::A)
    } else if c == 'Ɓ' {
        Some(CharSet::B)
    } else if c == 'Ć' {
        Some(CharSet::C)
    } else {
        None
    }
}

proof fn refused_early(data: Seq<char>, n: int)
    requires
        0 < n <= data.len(),
        symbols(data.take(n)) is None,
    ensures
        symbols(data) is None,
    decreases data.len() - n,
{
    if n == data.len() {
        assert(data.take(n) =~= data);
    } else {
        assert(data.take(n + 1).drop_last() =~= data.take(n));
        refused_early(data, n + 1);
    }
}

/// The checksum of a bar code with this data is computed without an overflow.
pub fn has_checksum(data: &[char]) -> (r: bool)
    ensures
        r == checksum_fits(data@),
{
    if data.len() == 0 {
        return true;
    }
    let mut set: CharSet = match marked_set(data[0]) {
        Some(set) => set,
        None => {
            proof {
                assert(data@.take(1)[0] == data@[0]);
                refused_early(data@, 1);
            }
            return true;
        },
    };
    let mut digit: Option<u32> = None;
    let mut count: u128 = 1;
    let mut fits: bool = true;
    let mut sum: u128 = match set {
        CharSet::A => 103,
        CharSet::B => 104,
        CharSet::C => 105,
    };
    let mut i: usize = 1;
    assert(data@.take(1)[0] == data@[0]);
    while i < data.len()
        invariant
            0 < i <= data@.len(),
            count <= i,
            digit matches Some(d) ==> d <= 9,
            fits ==> sum <= i32::MAX,
            symbols(data@.take(i as int)) matches Some(all) && {
                &&& all.set == set
                &&& all.digit == (match digit {
                    Some(d) => Some(d as int),
                    None => None,
                })
                &&& all.count == count
                &&& all.count >= 1
                &&& fits ==> all.sum == sum
                &&& !fits ==> all.sum > i32::MAX
            },
        decreases data@.len() - i,
    {
        let c = data[i];
        let ghost before = symbols(data@.take(i as int))->0;
        proof {
            assert(data@.take(i + 1).drop_last() =~= data@.take(i as int));
            assert(data@.take(i + 1).last() == c);
        }
        let mut number: Option<u32> = None;
        if matches!(set, CharSet::C) && '0' <= c && c <= '9' {
            let value: u32 = c as u32 - 48;
            match digit {
                None => {
                    digit = Some(value);
                },
                Some(first) => {
                    digit = None;
                    number = Some(first * 10 + value);
                },
            }
        } else {
            let mark = marked_set(c);
            let refused = mark.is_some() && digit.is_some();
            let symbol = symbol_value(set, c);
            if refused || symbol.is_none() {
                proof {
                    refused_early(data@, i + 1);
                }
                return true;
            }
            number = symbol;
            if let Some(next) = mark {
                set = next;
            }
        }
        if let Some(n) = number {
            proof {
                assert(0 <= n * count <= 105 * count) by (nonlinear_arith)
                    requires
                        n <= 105,
                        count >= 1,
                ;
                assert(before.sum + n * count >= before.sum);
            }
            if fits {
                sum = sum + (n as u128) * count;
                fits = sum <= 0x7fff_ffff;
            }
            count = count + 1;
        }
        i += 1;
    }
    assert(data@.take(i as int) =~= data@);
    digit.is_some() || fits
}

/// The data URI of a bar code, or the error in its place.
pub fn bars_data_uri(bars: Result<Vec<u8>, String>) -> (r: Result<String, CustomError>)
    ensures
        err::told(r) == bars_uri(bytes_result(bars)),
{
    match bars {
        Err(message) => Err(other_error_with("条形码内容非法: ", message.as_str())),
        Ok(bars) => {
            let n: u128 = bars.len() as u128;
            if n > u32::MAX as u128 || n * 240 > usize::MAX as u128 {
                return Err(other_error_with("条形码生成失败: ", "too many bars"));
            }
            match draw_bars(bars.as_slice(), 60) {
                Err(message) => Err(other_error_with("条形码生成失败: ", message.as_str())),
                Ok(file) => Ok(png_data_uri(file.as_slice())),
            }
        },
    }
}

/// The data URI of the Code 128 bar code of `content`. Content whose checksum would
/// overflow is refused.
pub fn barcode_data_uri(content: &str) -> (r: Result<String, CustomError>)
    ensures
        err::told(r) == barcode_uri(content@),
{
    let chars = text::chars_of(content);
    let marked = chars.len() > 0 && (chars[0] == 'À' || chars[0] == 'Ɓ' || chars[0] == 'Ć');
    let mut data: Vec<char> = Vec::new();
    if !marked {
        data.push('Ɓ');
    }
    text::append_chars(&mut data, chars.as_slice());
    assert(data@ =~= barcode_data(content@));
    if !has_checksum(data.as_slice()) {
        return Err(other_error_with("条形码内容非法: ", "checksum overflow"));
    }
    bars_data_uri(code128(text::string_of(data.as_slice()).as_str()))
}

/// A page as a data URL; what stands behind the prefix decodes to the page.
pub fn html_data_url(html: &str) -> (r: String)
    ensures
        r@ == page_url(html@),
        base64_bytes(base64_text(vstd::utf8::encode_utf8(html@))) == holds(
            vstd::utf8::encode_utf8(html@),
        ),
{
    let mut r = "data:text/html;base64,".to_owned();
    r.append(encode_base64(html.as_bytes()).as_str());
    r
}

// ---------------------------------------------------------------------------
// What the data URIs carry
// ---------------------------------------------------------------------------

/// The data URI of a QR code carries the PNG file of the picture of the QR code of that very
/// text; it is missing only where the text or the picture is refused.
pub proof fn qr_uri_carries_the_text(
    content: Seq<char>,
    width: u32,
    height: u32,
    pixels: Seq<u8>,
    file: Seq<u8>,
    message: Seq<char>,
)
    ensures
        qr_picture(content) == Ok::<(u32, u32, Seq<u8>), Seq<char>>((width, height, pixels))
            && png_file(width, height, pixels) == Ok::<Seq<u8>, Seq<char>>(file) ==> qr_uri(content)
            == Ok::<Seq<char>, ErrorView>("data:image/png;base64,"@ + base64_text(file)),
        qr_picture(content) == Err::<(u32, u32, Seq<u8>), Seq<char>>(message) ==> qr_uri(content)
            == Err::<Seq<char>, ErrorView>(ErrorView::QrError(message)),
        qr_picture(content) == Ok::<(u32, u32, Seq<u8>), Seq<char>>((width, height, pixels))
            && png_file(width, height, pixels) == Err::<Seq<u8>, Seq<char>>(message) ==> qr_uri(
            content,
        ) == Err::<Seq<char>, ErrorView>(ErrorView::ImageError(message)),
{
}

/// The data URI of a bar code carries the PNG file, 60 pixels high, of the bars of that very
/// text: in character set B where the text names no character set at its start, and as it
/// stands where it does.
pub proof fn barcode_uri_carries_the_text(
    content: Seq<char>,
    bars: Seq<u8>,
    file: Seq<u8>,
    message: Seq<char>,
)
    requires
        0 < content.len() < 4500,
        bars.len() <= u32::MAX,
        bars.len() * 240 <= usize::MAX,
    ensures
        ({
            let data = if content[0] == 'À' || content[0] == 'Ɓ' || content[0] == 'Ć' {
                content
            } else {
                seq!['Ɓ'] + content
            };
            &&& code128_bars(data) == Ok::<Seq<u8>, Seq<char>>(bars) && bars_file(bars, 60) == Ok::<
                Seq<u8>,
                Seq<char>,
            >(file) ==> barcode_uri(content) == Ok::<Seq<char>, ErrorView>(
                "data:image/png;base64,"@ + base64_text(file),
            )
            &&& code128_bars(data) == Err::<Seq<u8>, Seq<char>>(message) ==> barcode_uri(content)
                == Err::<Seq<char>, ErrorView>(
                ErrorView::OtherLibraryError("条形码内容非法: "@ + message),
            )
            &&& code128_bars(data) == Ok::<Seq<u8>, Seq<char>>(bars) && bars_file(bars, 60) == Err::<
                Seq<u8>,
                Seq<char>,
            >(message) ==> barcode_uri(content) == Err::<Seq<char>, ErrorView>(
                ErrorView::OtherLibraryError("条形码生成失败: "@ + message),
            )
        }),
{
    short_data_has_a_checksum(barcode_data(content));
    assert(bars.len() * 60 * 4 <= usize::MAX);
}

/// No data of up to 4500 characters is refused for its checksum.
pub proof fn short_data_has_a_checksum(data: Seq<char>)
    requires
        data.len() <= 4500,
    ensures
        checksum_fits(data),
{
    sum_is_bounded(data);
    let n = data.len() as int;
    assert(105 * n * n <= 105 * 4500 * 4500) by (nonlinear_arith)
        requires
            0 <= n <= 4500,
    ;
}

proof fn numbers_are_bounded(set: CharSet, c: char)
    ensures
        symbol_number(set, c) matches Some(n) ==> 0 <= n <= 105,
{
    assert(' ' as int == 32 && '_' as int == 95 && '~' as int == 126);
}

proof fn sum_is_bounded(data: Seq<char>)
    ensures
        symbols(data) matches Some(all) ==> 1 <= all.count <= data.len() && (all.digit matches Some(
            d,
        ) ==> 0 <= d <= 9) && 0 <= all.sum <= 105 * data.len() * data.len(),
    decreases data.len(),
{
    if data.len() > 1 {
        let front = data.drop_last();
        sum_is_bounded(front);
        if let Some(before) = symbols(front) {
            if let Some(all) = symbols(data) {
                let n = data.len() as int;
                let number = if all.count == before.count {
                    0
                } else if before.set == CharSet::C && text::is_ascii_digit(data.last()) {
                    before.digit->0 * 10 + (data.last() as int - 48)
                } else {
                    symbol_number(before.set, data.last())->0
                };
                numbers_are_bounded(before.set, data.last());
                assert(0 <= number <= 105);
                let count = before.count;
                assert(0 <= number * count <= 105 * (n - 1)) by (nonlinear_arith)
                    requires
                        0 <= number <= 105,
                        0 <= count <= n - 1,
                ;
                assert(105 * (n - 1) * (n - 1) + 105 * (n - 1) <= 105 * n * n) by (nonlinear_arith)
                    requires
                        n >= 1,
                ;
            }
        }
    } else if data.len() == 1 {
        assert(105 * data.len() * data.len() == 105);
    }
}

/// The data URL of a page carries the UTF-8 bytes of that very page.
pub proof fn page_url_carries_the_page(html: Seq<char>)
    ensures
        page_url(html).take(22) == "data:text/html;base64,"@,
        page_url(html).skip(22) == base64_text(vstd::utf8::encode_utf8(html)),
{
    reveal_strlit("data:text/html;base64,");
    assert(page_url(html).take(22) =~= "data:text/html;base64,"@);
    assert(page_url(html).skip(22) =~= base64_text(vstd::utf8::encode_utf8(html)));
}

/// What was drawn and written is what the results hold.
pub proof fn results_say_what_they_hold(
    picture: GreyPicture,
    bytes: Vec<u8>,
    message: String,
    held: Seq<u8>,
)
    ensures
        picture_result(Ok(picture)) == Ok::<(u32, u32, Seq<u8>), Seq<char>>(
            (picture.width, picture.height, picture.pixels@),
        ),
        picture_result(Err(message)) == Err::<(u32, u32, Seq<u8>), Seq<char>>(message@),
        bytes_result(Ok(bytes)) == Ok::<Seq<u8>, Seq<char>>(bytes@),
        bytes_result(Err(message)) == Err::<Seq<u8>, Seq<char>>(message@),
        holds(held) == Ok::<Seq<u8>, Seq<char>>(held),
        is_full(Ok(picture)) <==> picture.pixels@.len() == picture.width * picture.height,
        is_full(Err(message)),
{
}

/// A picture becomes a data URI with its PNG file; what went wrong with the code and what
/// went wrong with the file are told apart.
pub proof fn pictures_become_uris(
    width: u32,
    height: u32,
    pixels: Seq<u8>,
    file: Seq<u8>,
    message: Seq<char>,
)
    ensures
        png_file(width, height, pixels) == Ok::<Seq<u8>, Seq<char>>(file) ==> picture_uri(
            Ok((width, height, pixels)),
        ) == Ok::<Seq<char>, ErrorView>("data:image/png;base64,"@ + base64_text(file)),
        png_file(width, height, pixels) == Err::<Seq<u8>, Seq<char>>(message) ==> picture_uri(
            Ok((width, height, pixels)),
        ) == Err::<Seq<char>, ErrorView>(ErrorView::ImageError(message)),
        picture_uri(Err(message)) == Err::<Seq<char>, ErrorView>(ErrorView::QrError(message)),
        png_uri(file) == "data:image/png;base64,"@ + base64_text(file),
{
}

/// Bars become a data URI with their PNG file, 60 pixels high; content that is refused, a
/// file that fails and too many bars are told apart.
pub proof fn bars_become_uris(bars: Seq<u8>, file: Seq<u8>, message: Seq<char>)
    ensures
        ({
            let fit = bars.len() <= u32::MAX && bars.len() * 240 <= usize::MAX;
            &&& fit && bars_file(bars, 60) == Ok::<Seq<u8>, Seq<char>>(file) ==> bars_uri(Ok(bars))
                == Ok::<Seq<char>, ErrorView>("data:image/png;base64,"@ + base64_text(file))
            &&& fit && bars_file(bars, 60) == Err::<Seq<u8>, Seq<char>>(message) ==> bars_uri(
                Ok(bars),
            ) == Err::<Seq<char>, ErrorView>(
                ErrorView::OtherLibraryError("条形码生成失败: "@ + message),
            )
            &&& !fit ==> bars_uri(Ok(bars)) == Err::<Seq<char>, ErrorView>(
                ErrorView::OtherLibraryError("条形码生成失败: "@ + "too many bars"@),
            )
            &&& bars_uri(Err(message)) == Err::<Seq<char>, ErrorView>(
                ErrorView::OtherLibraryError("条形码内容非法: "@ + message),
            )
        }),
{
}

/// Data begins with the mark of its character set.
pub proof fn data_begins_with_a_mark(c: char)
    ensures
        symbols(seq!['À']) == Some(Symbols { set: CharSet::A, digit: None, count: 1, sum: 103 }),
        symbols(seq!['Ɓ']) == Some(Symbols { set: CharSet::B, digit: None, count: 1, sum: 104 }),
        symbols(seq!['Ć']) == Some(Symbols { set: CharSet::C, digit: None, count: 1, sum: 105 }),
        c != 'À' && c != 'Ɓ' && c != 'Ć' ==> symbols(seq![c]) is None,
        symbols(seq![]) is None,
{
}

/// A printed character counts by its place in its character set, times its place in the
/// data; digits count in pairs in set C, and a mark switches the set.
pub proof fn characters_count_by_their_place(data: Seq<char>, v: Symbols, c: char)
    requires
        symbols(data) == Some(v),
    ensures
        ({
            let next = symbols(data.push(c));
            let counts = |number: int, set: CharSet|
                next == Some(
                    Symbols {
                        set,
                        digit: None,
                        count: v.count + 1,
                        sum: v.sum + number * v.count,
                    },
                );
            &&& v.digit is None && v.set == CharSet::A && ' ' <= c <= '_' ==> counts(
                c as int - 32,
                CharSet::A,
            )
            &&& v.digit is None && v.set == CharSet::A && c < ' ' ==> counts(
                c as int + 64,
                CharSet::A,
            )
            &&& v.digit is None && v.set == CharSet::B && ' ' <= c <= '~' ==> counts(
                c as int - 32,
                CharSet::B,
            )
            &&& v.digit is None && v.set == CharSet::C && '0' <= c <= '9' ==> next == Some(
                Symbols { digit: Some(c as int - 48), ..v },
            )
            &&& v.set == CharSet::C && '0' <= c <= '9' && v.digit is Some ==> counts(
                v.digit->0 * 10 + (c as int - 48),
                CharSet::C,
            )
            &&& v.digit is None && v.set != CharSet::A && c == 'À' ==> counts(101, CharSet::A)
            &&& v.digit is None && v.set != CharSet::B && c == 'Ɓ' ==> counts(100, CharSet::B)
            &&& v.digit is None && v.set != CharSet::C && c == 'Ć' ==> counts(99, CharSet::C)
            &&& v.digit is Some && (c == 'À' || c == 'Ɓ' || c == 'Ć') ==> next is None
        }),
{
    let more = data.push(c);
    assert(more.drop_last() =~= data);
    assert(more.last() == c);
}

/// The checksum overflows where the weighted sum of data in whole pairs is beyond 31 bits,
/// and only there.
pub proof fn sums_beyond_the_limit_overflow(data: Seq<char>, v: Symbols)
    ensures
        symbols(data) == Some(v) && v.digit is None ==> (checksum_fits(data) <==> v.sum
            <= 0x7fff_ffff),
        symbols(data) == Some(v) && v.digit is Some ==> checksum_fits(data),
        symbols(data) is None ==> checksum_fits(data),
{
}

} // verus!
