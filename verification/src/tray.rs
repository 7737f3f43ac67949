//! The tray icon: its menu, its labels, its window messages and its pixels.

use vstd::prelude::*;

use crate::platform::Platform;
use crate::text::{chars_of, same_text};

verus! {

#[derive(Debug, Clone, Copy, PartialEq, Eq, Structural)]
pub enum TrayLanguage {
    English,
    Korean,
}

#[derive(Debug, Clone, Copy, PartialEq, Eq, Structural)]
pub enum TrayEvent {
    ShowMain,
    OpenOptions,
    OpenConnections,
    Quit,
}

/// Whether the system has a tray that the application can use.
pub fn is_supported(platform: Platform) -> (supported: bool)
    ensures
        supported == (platform == Platform::Windows || platform == Platform::MacOs),
{
    match platform {
        Platform::Windows => true,
        Platform::MacOs => true,
        Platform::Linux => false,
        Platform::Other => false,
    }
}

#[derive(Debug, Clone, Copy)]
pub struct Labels {
    pub tooltip: &'static str,
    pub show: &'static str,
    pub connections: &'static str,
    pub options: &'static str,
    pub quit: &'static str,
}

/// The texts of the tray icon and of its menu.
pub fn labels(language: TrayLanguage) -> (out: Labels)
    ensures
        out.tooltip@ == "net-combiner"@,
        language == TrayLanguage::English ==> {
            &&& out.show@ == "Show net-combiner"@
            &&& out.connections@ == "Connection activity"@
            &&& out.options@ == "Options"@
            &&& out.quit@ == "Quit"@
        },
        language == TrayLanguage::Korean ==> {
            &&& out.show@ == "net-combiner 열기"@
            &&& out.connections@ == "연결 상태"@
            &&& out.options@ == "옵션"@
            &&& out.quit@ == "종료"@
        },
{
    match language {
        TrayLanguage::English => Labels {
            tooltip: "net-combiner",
            show: "Show net-combiner",
            connections: "Connection activity",
            options: "Options",
            quit: "Quit",
        },
        TrayLanguage::Korean => Labels {
            tooltip: "net-combiner",
            show: "net-combiner 열기",
            connections: "연결 상태",
            options: "옵션",
            quit: "종료",
        },
    }
}

// ---------------------------------------------------------------------
// Menu commands
// ---------------------------------------------------------------------

pub const ID_SHOW: usize = 1001;

pub const ID_CONNECTIONS: usize = 1002;

pub const ID_OPTIONS: usize = 1003;

pub const ID_QUIT: usize = 1004;

/// What a menu entry with a number asks for; nothing for another number.
pub fn menu_event(id: usize) -> (event: Option<TrayEvent>)
    ensures
        event == (if id == ID_SHOW {
            Some(TrayEvent::ShowMain)
        } else if id == ID_CONNECTIONS {
            Some(TrayEvent::OpenConnections)
        } else if id == ID_OPTIONS {
            Some(TrayEvent::OpenOptions)
        } else if id == ID_QUIT {
            Some(TrayEvent::Quit)
        } else {
            None
        }),
{
    if id == ID_SHOW {
        Some(TrayEvent::ShowMain)
    } else if id == ID_CONNECTIONS {
        Some(TrayEvent::OpenConnections)
    } else if id == ID_OPTIONS {
        Some(TrayEvent::OpenOptions)
    } else if id == ID_QUIT {
        Some(TrayEvent::Quit)
    } else {
        None
    }
}

/// The names of the menu entries, where entries have names.
#[derive(Debug, Clone, Copy)]
pub struct MenuNames {
    pub show: &'static str,
    pub connections: &'static str,
    pub options: &'static str,
    pub quit: &'static str,
}

pub fn menu_names() -> (out: MenuNames)
    ensures
        out.show@ == "net-combiner.show"@,
        out.connections@ == "net-combiner.connections"@,
        out.options@ == "net-combiner.options"@,
        out.quit@ == "net-combiner.quit"@,
{
    MenuNames {
        show: "net-combiner.show",
        connections: "net-combiner.connections",
        options: "net-combiner.options",
        quit: "net-combiner.quit",
    }
}

/// What a menu entry with a name asks for; nothing for another name.
pub fn named_menu_event(name: &str) -> (event: Option<TrayEvent>)
    ensures
        event == (if name@ == "net-combiner.show"@ {
            Some(TrayEvent::ShowMain)
        } else if name@ == "net-combiner.connections"@ {
            Some(TrayEvent::OpenConnections)
        } else if name@ == "net-combiner.options"@ {
            Some(TrayEvent::OpenOptions)
        } else if name@ == "net-combiner.quit"@ {
            Some(TrayEvent::Quit)
        } else {
            None
        }),
{
    if same_text(name, "net-combiner.show") {
        Some(TrayEvent::ShowMain)
    } else if same_text(name, "net-combiner.connections") {
        Some(TrayEvent::OpenConnections)
    } else if same_text(name, "net-combiner.options") {
        Some(TrayEvent::OpenOptions)
    } else if same_text(name, "net-combiner.quit") {
        Some(TrayEvent::Quit)
    } else {
        None
    }
}

// ---------------------------------------------------------------------
// Window messages
// ---------------------------------------------------------------------

pub const WM_DESTROY: u32 = 0x0002;

pub const WM_CLOSE: u32 = 0x0010;

pub const WM_COMMAND: u32 = 0x0111;

pub const WM_LBUTTONUP: u32 = 0x0202;

pub const WM_LBUTTONDBLCLK: u32 = 0x0203;

pub const WM_RBUTTONUP: u32 = 0x0205;

/// The first message number that an application may use for itself, plus 31.
pub const WM_TRAY: u32 = 0x801f;

pub const WM_TRAY_SHUTDOWN: u32 = 0x8020;

pub const WM_TRAY_LANGUAGE: u32 = 0x8021;

/// What the hidden tray window does with a message.
#[derive(Debug, Clone, Copy, PartialEq, Eq, Structural)]
pub enum WindowReaction {
    Emit(TrayEvent),
    ShowMenu,
    Ignore,
    DestroyWindow,
    Cleanup,
    /// The system handles the message.
    PassOn,
}

/// The reaction to message `msg`. `mouse` is the mouse message that a tray message carries and
/// `command` the menu entry that a command message carries.
pub fn window_reaction(msg: u32, mouse: u32, command: usize) -> (reaction: WindowReaction)
    ensures
        msg == WM_TRAY && (mouse == WM_LBUTTONUP || mouse == WM_LBUTTONDBLCLK) ==> reaction
            == WindowReaction::Emit(TrayEvent::ShowMain),
        msg == WM_TRAY && mouse == WM_RBUTTONUP ==> reaction == WindowReaction::ShowMenu,
        msg == WM_TRAY && mouse != WM_LBUTTONUP && mouse != WM_LBUTTONDBLCLK && mouse
            != WM_RBUTTONUP ==> reaction == WindowReaction::Ignore,
        msg == WM_COMMAND && command == ID_SHOW ==> reaction == WindowReaction::Emit(
            TrayEvent::ShowMain,
        ),
        msg == WM_COMMAND && command == ID_CONNECTIONS ==> reaction == WindowReaction::Emit(
            TrayEvent::OpenConnections,
        ),
        msg == WM_COMMAND && command == ID_OPTIONS ==> reaction == WindowReaction::Emit(
            TrayEvent::OpenOptions,
        ),
        msg == WM_COMMAND && command == ID_QUIT ==> reaction == WindowReaction::Emit(
            TrayEvent::Quit,
        ),
        msg == WM_COMMAND && command != ID_SHOW && command != ID_CONNECTIONS && command
            != ID_OPTIONS && command != ID_QUIT ==> reaction == WindowReaction::Ignore,
        msg == WM_TRAY_SHUTDOWN || msg == WM_CLOSE ==> reaction == WindowReaction::DestroyWindow,
        msg == WM_DESTROY ==> reaction == WindowReaction::Cleanup,
        msg != WM_TRAY && msg != WM_COMMAND && msg != WM_TRAY_SHUTDOWN && msg != WM_CLOSE && msg
            != WM_DESTROY ==> reaction == WindowReaction::PassOn,
{
    if msg == WM_TRAY {
        if mouse == WM_LBUTTONUP || mouse == WM_LBUTTONDBLCLK {
            WindowReaction::Emit(TrayEvent::ShowMain)
        } else if mouse == WM_RBUTTONUP {
            WindowReaction::ShowMenu
        } else {
            WindowReaction::Ignore
        }
    } else if msg == WM_COMMAND {
        match menu_event(command) {
            Some(event) => WindowReaction::Emit(event),
            None => WindowReaction::Ignore,
        }
    } else if msg == WM_TRAY_SHUTDOWN || msg == WM_CLOSE {
        WindowReaction::DestroyWindow
    } else if msg == WM_DESTROY {
        WindowReaction::Cleanup
    } else {
        WindowReaction::PassOn
    }
}

// ---------------------------------------------------------------------
// UTF-16
// ---------------------------------------------------------------------

/// The UTF-16 code units of a character: one, or a surrogate pair.
pub open spec fn utf16_units(ch: char) -> Seq<u16> {
    let code = ch as u32;
    if code < 0x1_0000 {
        seq![code as u16]
    } else {
        seq![
            (0xd800 + (code - 0x1_0000) / 0x400) as u16,
            (0xdc00 + (code - 0x1_0000) % 0x400) as u16,
        ]
    }
}

/// A text in UTF-16.
pub open spec fn utf16(text: Seq<char>) -> Seq<u16>
    decreases text.len(),
{
    if text.len() == 0 {
        Seq::empty()
    } else {
        utf16(text.drop_last()) + utf16_units(text.last())
    }
}

/// `value` in UTF-16.
fn encode_utf16(value: &str) -> (out: Vec<u16>)
    ensures
        out@ == utf16(value@),
{
    let chars: Vec<char> = chars_of(value);
    let mut out: Vec<u16> = Vec::new();
    let mut i: usize = 0;
    while i < chars.len()
        invariant
            i <= chars@.len(),
            out@ == utf16(chars@.take(i as int)),
        decreases chars@.len() - i,
    {
        let ghost before = out@;
        let code: u32 = chars[i] as u32;
        proof {
            let longer = chars@.take(i + 1);
            assert(longer.drop_last() =~= chars@.take(i as int));
            assert(longer.last() == chars@[i as int]);
        }
        if code < 0x1_0000 {
            out.push(code as u16);
        } else {
            out.push((0xd800 + (code - 0x1_0000) / 0x400) as u16);
            out.push((0xdc00 + (code - 0x1_0000) % 0x400) as u16);
        }
        i += 1;
        assert(out@ =~= before + utf16_units(chars@[i - 1]));
    }
    assert(chars@.take(i as int) =~= chars@);
    out
}

/// `value` in UTF-16 with a zero behind it.
pub fn wide_null(value: &str) -> (out: Vec<u16>)
    ensures
        out@ == utf16(value@).push(0),
{
    let mut out: Vec<u16> = encode_utf16(value);
    out.push(0);
    out
}

/// Writes `value` in UTF-16 to the front of `target`, leaving at least the last slot alone.
pub fn fill_wide_array<const N: usize>(target: &mut [u16; N], value: &str)
    ensures
        forall|i: int|
            0 <= i < N ==> #[trigger] final(target)@[i] == (if i < utf16(value@).len() && i < N - 1 {
                utf16(value@)[i]
            } else {
                old(target)@[i]
            }),
{
    let encoded: Vec<u16> = encode_utf16(value);
    let mut i: usize = 0;
    while i < encoded.len() && N > 0 && i < N - 1
        invariant
            i <= encoded@.len(),
            i == 0 || i <= N - 1,
            encoded@ == utf16(value@),
            forall|j: int|
                0 <= j < N ==> #[trigger] target@[j] == (if j < i {
                    encoded@[j]
                } else {
                    old(target)@[j]
                }),
        decreases encoded@.len() - i,
    {
        target[i] = encoded[i];
        i += 1;
    }
}

// ---------------------------------------------------------------------
// The icon
// ---------------------------------------------------------------------

/// The side of the tray icon for the sizes that the system suggests: at least 16 pixels.
pub fn tray_icon_size(width: i32, height: i32) -> (size: u32)
    ensures
        size >= 16,
        size >= width,
        size >= height,
        size == 16 || size == width || size == height,
{
    let w: i32 = if width > 16 {
        width
    } else {
        16
    };
    let h: i32 = if height > 16 {
        height
    } else {
        16
    };
    if w > h {
        w as u32
    } else {
        h as u32
    }
}

/// Where the pixel in column `x` of row `y` starts in an image of four bytes a pixel.
pub open spec fn pixel_at(x: int, y: int, side: int) -> int {
    (y * side + x) * 4
}

/// The colour plane of the icon: rows from the bottom up, each pixel as blue, green, red and
/// alpha.
pub open spec fn icon_plane(rgba: Seq<u8>, side: nat) -> Seq<u8> {
    Seq::new(
        side * side * 4,
        |i: int|
            {
                let x = (i / 4) % (side as int);
                let y = side - 1 - (i / 4) / (side as int);
                let channel = i % 4;
                rgba[pixel_at(x, y, side as int) + (if channel == 0 {
                    2
                } else if channel == 2 {
                    0
                } else {
                    channel
                })]
            },
    )
}

/// How many bytes the mask plane of an icon takes: rows of one bit a pixel, filled up to 32.
pub open spec fn mask_bytes(side: nat) -> nat {
    ((side + 31) / 32) * 4 * side
}

/// The two planes of a tray icon.
#[derive(Debug)]
pub struct IconPlanes {
    pub xor_bits: Vec<u8>,
    pub and_bits: Vec<u8>,
}

proof fn lemma_plane_index(x: int, row: int, side: int, channel: int)
    by (nonlinear_arith)
    requires
        0 <= x < side,
        0 <= row < side,
        0 <= channel < 4,
    ensures
        ((row * side + x) * 4 + channel) / 4 == row * side + x,
        ((row * side + x) * 4 + channel) % 4 == channel,
        (row * side + x) % side == x,
        (row * side + x) / side == row,
        0 <= (row * side + x) * 4 + channel < side * side * 4,
{
}

/// The planes of a square icon with `side` pixels a side.
pub fn icon_planes(rgba: &[u8], side: u32) -> (planes: IconPlanes)
    requires
        side <= 32767,
        rgba@.len() == side * side * 4,
    ensures
        planes.xor_bits@ == icon_plane(rgba@, side as nat),
        planes.and_bits@ == Seq::new(mask_bytes(side as nat), |i: int| 0u8),
{
    let n: usize = side as usize;
    let mut xor_bits: Vec<u8> = Vec::new();
    let ghost plane = icon_plane(rgba@, side as nat);
    let mut row: usize = 0;
    while row < n
        invariant
            n == side,
            n <= 32767,
            row <= n,
            rgba@.len() == n * n * 4,
            plane == icon_plane(rgba@, n as nat),
            plane.len() == n * n * 4,
            xor_bits@.len() == row * n * 4,
            row * n * 4 <= n * n * 4,
            xor_bits@ == plane.take(row * n * 4),
        decreases n - row,
    {
        let y: usize = n - 1 - row;
        let mut x: usize = 0;
        assert((row * n + 0) * 4 == row * n * 4);
        while x < n
            invariant
                n <= 32767,
                x <= n,
                row < n,
                y == n - 1 - row,
                rgba@.len() == n * n * 4,
                plane == icon_plane(rgba@, n as nat),
                plane.len() == n * n * 4,
                xor_bits@.len() == (row * n + x) * 4,
                (row * n + x) * 4 <= n * n * 4,
                xor_bits@ == plane.take((row * n + x) * 4),
            decreases n - x,
        {
            proof {
                lemma_plane_index(x as int, row as int, n as int, 0);
                lemma_plane_index(x as int, row as int, n as int, 1);
                lemma_plane_index(x as int, row as int, n as int, 2);
                lemma_plane_index(x as int, row as int, n as int, 3);
                lemma_plane_index(x as int, y as int, n as int, 3);
                assert(n * n <= 32767 * 32767) by (nonlinear_arith)
                    requires
                        n <= 32767,
                ;
                assert(y * n <= n * n) by (nonlinear_arith)
                    requires
                        y <= n,
                ;
            }
            let at: usize = (y * n + x) * 4;
            let ghost before = xor_bits@;
            let ghost base = (row * n + x) * 4;
            xor_bits.push(rgba[at + 2]);
            xor_bits.push(rgba[at + 1]);
            xor_bits.push(rgba[at]);
            xor_bits.push(rgba[at + 3]);
            proof {
                assert(plane[base] == rgba@[at + 2]);
                assert(plane[base + 1] == rgba@[at + 1]);
                assert(plane[base + 2] == rgba@[at as int]);
                assert(plane[base + 3] == rgba@[at + 3]);
                assert((row * n + (x + 1)) * 4 == base + 4);
                assert(xor_bits@ =~= plane.take(base + 4));
            }
            x += 1;
        }
        proof {
            assert((row * n + n) * 4 == (row + 1) * n * 4) by (nonlinear_arith);
            assert((row + 1) * n * 4 <= n * n * 4) by (nonlinear_arith)
                requires
                    row + 1 <= n,
            ;
        }
        row += 1;
    }
    assert(plane.take(row * n * 4) =~= plane);
    let stride: usize = (n + 31) / 32 * 4;
    proof {
        assert(stride * n <= 4096 * 32767) by (nonlinear_arith)
            requires
                stride <= 4096,
                n <= 32767,
        ;
    }
    let total: usize = stride * n;
    let mut and_bits: Vec<u8> = Vec::new();
    while and_bits.len() < total
        invariant
            and_bits@.len() <= total,
            and_bits@ == Seq::new(and_bits@.len(), |i: int| 0u8),
        decreases total - and_bits@.len(),
    {
        and_bits.push(0);
    }
    assert(mask_bytes(side as nat) == total);
    IconPlanes { xor_bits, and_bits }
}

/// A picture of four bytes a pixel.
#[derive(Debug)]
pub struct IconImage {
    pub width: u32,
    pub height: u32,
    pub rgba: Vec<u8>,
}

/// What `eframe::icon_data::from_png_bytes` reads from the bytes of a picture file: the width, the
/// height and the pixels, or nothing where it returns an error.
pub uninterp spec fn png_pixels(bytes: Seq<u8>) -> Option<(u32, u32, Seq<u8>)>;

/// `eframe::icon_data::from_png_bytes`: what it reads is a function of the bytes alone. The text
/// of its error is left unsaid.
#[verifier::external_body]
fn decode_png(bytes: &[u8]) -> (image: Result<IconImage, String>)
    ensures
        image is Ok <==> png_pixels(bytes@) is Some,
        image matches Ok(found) ==> png_pixels(bytes@) == Some(
            (found.width, found.height, found.rgba@),
        ),
{
    match eframe::icon_data::from_png_bytes(bytes) {
        Ok(icon) => Ok(IconImage { width: icon.width, height: icon.height, rgba: icon.rgba }),
        Err(error) => Err(error.to_string()),
    }
}

/// Whether the picture holds the pixels that its size asks for and can be made into a square of
/// `side` pixels a side: a row of it, the picture while it is resized and the square itself all
/// fit into memory.
pub open spec fn resizable(width: u32, height: u32, bytes: nat, side: u32) -> bool {
    &&& bytes >= width * height * 4
    &&& width * 4 <= usize::MAX
    &&& width * side * 16 <= isize::MAX
    &&& side * side * 4 <= isize::MAX
}

/// The pixels of a blank square with `side` pixels a side.
pub open spec fn blank(side: nat) -> Seq<u8> {
    Seq::new(side * side * 4, |i: int| 0u8)
}

/// Whether `pixels` are those of a square with `side` pixels a side that shows the picture.
pub open spec fn shows(
    pixels: Seq<u8>,
    rgba: Seq<u8>,
    width: u32,
    height: u32,
    side: u32,
) -> bool {
    &&& lanczos_square(rgba, width, height, side, pixels)
    &&& pixels.len() == side * side * 4
    &&& width == side && height == side ==> pixels == rgba.take(side * side * 4)
    &&& width == 0 || height == 0 ==> pixels == blank(side as nat)
}

/// Whether `image::imageops::resize` with the Lanczos filter can make `out`, a square of `side`
/// pixels a side, of the picture. Where the size changes the filter computes with floating-point
/// numbers, so that machines may differ in what they make of one picture.
pub uninterp spec fn lanczos_square(
    rgba: Seq<u8>,
    width: u32,
    height: u32,
    side: u32,
    out: Seq<u8>,
) -> bool;

/// `image::imageops::resize` to a square with the Lanczos filter: a picture of four bytes a pixel
/// that has the size already is copied, one without pixels gives a blank one, and any other is
/// made into one of that size. Which pixels the filter then gives is left unsaid: it computes with
/// floating-point numbers.
#[verifier::external_body]
fn resize_square(rgba: &[u8], width: u32, height: u32, side: u32) -> (out: Vec<u8>)
    requires
        resizable(width, height, rgba@.len(), side),
        side <= 32767,
    ensures
        lanczos_square(rgba@, width, height, side, out@),
        out@.len() == side * side * 4,
        width == side && height == side ==> out@ == rgba@.take(side * side * 4),
        width == 0 || height == 0 ==> out@ == blank(side as nat),
{
    let source = image::RgbaImage::from_raw(width, height, rgba.to_vec()).unwrap();
    let filter = image::imageops::FilterType::Lanczos3;
    image::imageops::resize(&source, side, side, filter).into_raw()
}

/// The picture in a file, if there is one.
pub fn load_icon_data(png: &[u8]) -> (image: Option<IconImage>)
    ensures
        image is Some <==> png_pixels(png@) is Some,
        image matches Some(found) ==> png_pixels(png@) == Some(
            (found.width, found.height, found.rgba@),
        ),
{
    match decode_png(png) {
        Ok(image) => Some(image),
        Err(_) => None,
    }
}

/// The planes of a tray icon with `side` pixels a side that shows the picture.
pub fn icon_from_pixels(icon: &IconImage, side: u32) -> (planes: Result<IconPlanes, &'static str>)
    requires
        side <= 32767,
    ensures
        planes is Ok <==> resizable(icon.width, icon.height, icon.rgba@.len(), side),
        planes matches Err(message) ==> message@ == "invalid tray icon pixels"@,
        planes matches Ok(found) ==> {
            &&& found.and_bits@ == Seq::new(mask_bytes(side as nat), |i: int| 0u8)
            &&& exists|pixels: Seq<u8>|
                {
                    &&& shows(pixels, icon.rgba@, icon.width, icon.height, side)
                    &&& found.xor_bits@ == #[trigger] icon_plane(pixels, side as nat)
                }
        },
{
    proof {
        let (w, h, n) = (icon.width as int, icon.height as int, side as int);
        assert(0 <= w * h <= 0xffff_ffff * 0xffff_ffff) by (nonlinear_arith)
            requires
                0 <= w <= 0xffff_ffff,
                0 <= h <= 0xffff_ffff,
        ;
        assert(0 <= w * n <= 0xffff_ffff * 32767) by (nonlinear_arith)
            requires
                0 <= w <= 0xffff_ffff,
                0 <= n <= 32767,
        ;
        assert(0 <= n * n <= 32767 * 32767) by (nonlinear_arith)
            requires
                0 <= n <= 32767,
        ;
    }
    let needed: u128 = icon.width as u128 * icon.height as u128 * 4;
    let row_bytes: u128 = icon.width as u128 * 4;
    let work_bytes: u128 = icon.width as u128 * side as u128 * 16;
    let square_bytes: u128 = side as u128 * side as u128 * 4;
    let most: u128 = isize::MAX as u128;
    if (icon.rgba.len() as u128) < needed || row_bytes > usize::MAX as u128 || work_bytes > most
        || square_bytes > most {
        return Err("invalid tray icon pixels");
    }
    let pixels: Vec<u8> = resize_square(icon.rgba.as_slice(), icon.width, icon.height, side);
    let planes: IconPlanes = icon_planes(pixels.as_slice(), side);
    proof {
        assert(shows(pixels@, icon.rgba@, icon.width, icon.height, side));
        assert(planes.xor_bits@ == icon_plane(pixels@, side as nat));
    }
    Ok(planes)
}

/// The message for a picture file that cannot be read.
pub open spec fn load_failure(reason: Seq<char>) -> Seq<char> {
    "failed to load tray icon: "@ + reason
}

/// The message for a picture file that cannot be read, the reason being known.
pub fn load_failed_message(reason: &str) -> (message: String)
    ensures
        message@ == load_failure(reason@),
{
    let mut message: String = "failed to load tray icon: ".to_owned();
    message.append(reason);
    message
}

/// The planes of a tray icon with `side` pixels a side that shows the picture in a file.
pub fn create_tray_icon(png: &[u8], side: u32) -> (planes: Result<IconPlanes, String>)
    requires
        side <= 32767,
    ensures
        planes is Ok <==> (png_pixels(png@) matches Some((width, height, rgba)) && resizable(
            width,
            height,
            rgba.len(),
            side,
        )),
        png_pixels(png@) is None ==> exists|reason: Seq<char>|
            planes->Err_0@ == #[trigger] load_failure(reason),
        planes is Err && png_pixels(png@) is Some ==> planes->Err_0@ == "invalid tray icon pixels"@,
        planes matches Ok(found) ==> {
            &&& found.and_bits@ == Seq::new(mask_bytes(side as nat), |i: int| 0u8)
            &&& exists|pixels: Seq<u8>|
                {
                    &&& png_pixels(png@) matches Some((width, height, rgba)) && shows(
                        pixels,
                        rgba,
                        width,
                        height,
                        side,
                    )
                    &&& found.xor_bits@ == #[trigger] icon_plane(pixels, side as nat)
                }
        },
{
    match decode_png(png) {
        Err(error) => Err(load_failed_message(error.as_str())),
        Ok(icon) => match icon_from_pixels(&icon, side) {
            Ok(planes) => Ok(planes),
            Err(message) => Err(message.to_owned()),
        },
    }
}

// ---------------------------------------------------------------------
// Laws
// ---------------------------------------------------------------------

/// The colour plane keeps every pixel: the one in column `x` of row `y` stands in the mirrored
/// row, with red and blue exchanged.
pub proof fn law_plane_keeps_pixels(rgba: Seq<u8>, side: nat, x: int, y: int)
    requires
        0 <= x < side,
        0 <= y < side,
        rgba.len() == side * side * 4,
    ensures
        ({
            let from = pixel_at(x, y, side as int);
            let to = pixel_at(x, side - 1 - y, side as int);
            let plane = icon_plane(rgba, side);
            &&& from == (y * side + x) * 4
            &&& to == ((side - 1 - y) * side + x) * 4
            &&& plane.len() == side * side * 4
            &&& 0 <= to && to + 3 < plane.len()
            &&& plane[to] == rgba[from + 2]
            &&& plane[to + 1] == rgba[from + 1]
            &&& plane[to + 2] == rgba[from]
            &&& plane[to + 3] == rgba[from + 3]
        }),
{
    let row = side - 1 - y;
    lemma_plane_index(x, row, side as int, 0);
    lemma_plane_index(x, row, side as int, 1);
    lemma_plane_index(x, row, side as int, 2);
    lemma_plane_index(x, row, side as int, 3);
}

/// A character takes one unit, which is its number, or a pair of surrogates that stands for it; a
/// text is made of the units of its characters.
pub proof fn law_units_of_a_text(text: Seq<char>, ch: char)
    ensures
        utf16(Seq::empty()).len() == 0,
        utf16(text.push(ch)) == utf16(text) + utf16_units(ch),
        ch as u32 <= 0xffff ==> utf16_units(ch).len() == 1 && utf16_units(ch)[0] == ch as u32,
        ch as u32 > 0xffff ==> {
            let units = utf16_units(ch);
            &&& units.len() == 2
            &&& 0xd800 <= units[0] <= 0xdbff
            &&& 0xdc00 <= units[1] <= 0xdfff
            &&& 0x1_0000 + (units[0] - 0xd800) * 0x400 + (units[1] - 0xdc00) == ch as u32
        },
{
    assert(text.push(ch).drop_last() =~= text);
}

/// A row of the mask has a bit for each pixel and is filled up to whole words of 32 bits.
pub proof fn law_rows_of_the_mask(side: nat) -> (row: nat)
    ensures
        mask_bytes(side) == row * side,
        row % 4 == 0,
        side <= row * 8 < side + 32,
{
    let words = (side + 31) / 32;
    words * 4
}

} // verus!
