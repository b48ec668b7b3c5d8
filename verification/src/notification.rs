//! One notification as a client sends it: its fields, the hints it carries, the
//! picture it shows and how long it stays.

use vstd::prelude::*;

use crate::markup::strip_body_markup;
use crate::text::{chars_of, same};

verus! {

/// Server-chosen default lifetime for notifications that don't request one.
pub const DEFAULT_TIMEOUT_MS: u64 = 5000;

/// Size requested when resolving a themed icon name. Themed icons only exist at
/// the discrete sizes an application ships, and the lookup returns the closest
/// one without exceeding the request, so this is well above the display slot:
/// that way a crisp larger icon is downscaled rather than a tiny one upscaled.
pub const ICON_LOOKUP_SIZE: u16 = 128;

#[derive(Clone, Copy, Debug, PartialEq, Eq, Structural)]
pub enum Urgency {
    Low,
    Normal,
    Critical,
}

impl Urgency {
    /// Reads the `urgency` hint.
    pub fn from_hint(value: u8) -> (r: Self)
        ensures
            r == (if value == 0 {
                Urgency::Low
            } else if value == 2 {
                Urgency::Critical
            } else {
                Urgency::Normal
            }),
    {
        match value {
            0 => Urgency::Low,
            2 => Urgency::Critical,
            _ => Urgency::Normal,
        }
    }

    /// The number that stands for an urgency.
    pub open spec fn number(self) -> u8 {
        match self {
            Urgency::Low => 0,
            Urgency::Normal => 1,
            Urgency::Critical => 2,
        }
    }

    pub fn as_u8(self) -> (r: u8)
        ensures
            r == self.number(),
    {
        match self {
            Urgency::Low => 0,
            Urgency::Normal => 1,
            Urgency::Critical => 2,
        }
    }

    /// Every urgency survives being written as a number and read back.
    pub proof fn law_number_round_trips(self)
        ensures
            self.number() <= 2,
            self == (if self.number() == 0 {
                Urgency::Low
            } else if self.number() == 2 {
                Urgency::Critical
            } else {
                Urgency::Normal
            }),
    {
    }
}

/// Why a notification was removed.
#[derive(Clone, Copy, Debug, PartialEq, Eq, Structural)]
pub enum CloseReason {
    Expired,
    Dismissed,
    /// Closed via a `CloseNotification` method call.
    Closed,
}

impl CloseReason {
    /// The reason code that goes out with `NotificationClosed`.
    pub fn code(self) -> (r: u32)
        ensures
            r == (match self {
                CloseReason::Expired => 1u32,
                CloseReason::Dismissed => 2u32,
                CloseReason::Closed => 3u32,
            }),
    {
        match self {
            CloseReason::Expired => 1,
            CloseReason::Dismissed => 2,
            CloseReason::Closed => 3,
        }
    }
}

#[derive(Debug)]
pub struct NotificationAction {
    pub key: String,
    pub label: String,
}

/// The `image-data` hint payload, a `(iiibiiay)` struct.
#[derive(Debug)]
pub struct ImageData {
    pub width: i32,
    pub height: i32,
    pub rowstride: i32,
    pub has_alpha: bool,
    pub bits_per_sample: i32,
    pub channels: i32,
    pub data: Vec<u8>,
}

impl ImageData {
    /// Whether the payload holds every pixel it announces.
    pub open spec fn complete(&self) -> bool {
        &&& self.width > 0
        &&& self.height > 0
        &&& self.channels >= 3
        &&& self.rowstride > 0
        &&& self.rowstride >= self.width * self.channels
        &&& self.data@.len() >= self.rowstride * self.height
    }

    /// The `i`-th byte of the picture in BGRA order, opaque where the payload
    /// has no alpha.
    pub open spec fn bgra(&self, i: int) -> u8 {
        let pixel = i / 4;
        let base = (pixel / self.width as int) * self.rowstride + (pixel % self.width as int)
            * self.channels;
        if i % 4 == 3 {
            if self.channels >= 4 {
                self.data@[base + 3]
            } else {
                255
            }
        } else {
            self.data@[base + 2 - i % 4]
        }
    }
}

/// A picture ready to be drawn: four bytes to a pixel, blue first.
#[derive(Debug)]
pub struct Pixels {
    pub width: u32,
    pub height: u32,
    pub bgra: Vec<u8>,
}

/// The bytes of a pixel lie inside a complete payload.
proof fn lemma_pixel_in_range(image: ImageData, pixel: int)
    requires
        image.complete(),
        0 <= pixel < image.width * image.height,
    ensures
        0 <= pixel / image.width as int,
        0 <= pixel % image.width as int,
        0 <= (pixel / image.width as int) * image.rowstride,
        0 <= (pixel % image.width as int) * image.channels,
        (pixel / image.width as int) * image.rowstride + (pixel % image.width as int)
            * image.channels + image.channels <= image.rowstride * image.height
            <= image.data@.len(),
{
    let w = image.width as int;
    let h = image.height as int;
    let c = image.channels as int;
    let stride = image.rowstride as int;
    let y = pixel / w;
    let x = pixel % w;
    vstd::arithmetic::div_mod::lemma_fundamental_div_mod(pixel, w);
    vstd::arithmetic::div_mod::lemma_div_pos_is_pos(pixel, w);
    vstd::arithmetic::div_mod::lemma_mod_bound(pixel, w);
    assert(y < h) by (nonlinear_arith)
        requires
            pixel < w * h,
            pixel == w * y + x,
            0 <= x,
            w > 0,
    ;
    assert(0 <= y * stride && 0 <= x * c) by (nonlinear_arith)
        requires
            0 <= y,
            0 <= stride,
            0 <= x,
            0 <= c,
    ;
    assert(x * c + c <= w * c) by (nonlinear_arith)
        requires
            x + 1 <= w,
            c >= 0,
    ;
    assert(y * stride + stride <= stride * h) by (nonlinear_arith)
        requires
            y + 1 <= h,
            stride >= 0,
    ;
}

/// Turns an image payload into a picture, or nothing if the payload does not
/// hold what it announces.
///
/// The hint delivers red first, so each pixel is reordered, and alpha is filled
/// in when the source has none.
pub fn render_image_from_data(image: &ImageData) -> (r: Option<Pixels>)
    ensures
        r is Some <==> image.complete(),
        r matches Some(pixels) ==> {
            &&& pixels.width == image.width
            &&& pixels.height == image.height
            &&& pixels.bgra@.len() == 4 * image.width * image.height
            &&& forall|i: int| 0 <= i < pixels.bgra@.len() ==> pixels.bgra@[i] == image.bgra(i)
        },
{
    if image.width <= 0 || image.height <= 0 || image.channels < 3 || image.rowstride <= 0 {
        return None;
    }
    let width: usize = image.width as usize;
    let height: usize = image.height as usize;
    let channels: usize = image.channels as usize;
    let rowstride: usize = image.rowstride as usize;
    let have: usize = image.data.len();
    let row_bytes: usize = match width.checked_mul(channels) {
        Some(row_bytes) => row_bytes,
        None => {
            return None;
        },
    };
    let needed: usize = match rowstride.checked_mul(height) {
        Some(needed) => needed,
        None => {
            return None;
        },
    };
    if rowstride < row_bytes || have < needed {
        return None;
    }
    assert(image.complete());
    assert(width * height <= rowstride * height) by (nonlinear_arith)
        requires
            channels >= 3,
            width >= 0,
            width * channels <= rowstride,
            height >= 0,
    {
        assert(width <= width * channels);
    };
    let total: usize = width * height;
    let mut buffer: Vec<u8> = Vec::new();
    let mut pixel: usize = 0;
    while pixel < total
        invariant
            image.complete(),
            have == image.data@.len(),
            width == image.width,
            height == image.height,
            channels == image.channels,
            rowstride == image.rowstride,
            total == image.width * image.height,
            pixel <= total,
            buffer@.len() == 4 * pixel,
            forall|i: int| 0 <= i < buffer@.len() ==> buffer@[i] == image.bgra(i),
        decreases total - pixel,
    {
        proof {
            lemma_pixel_in_range(*image, pixel as int);
        }
        let y: usize = pixel / width;
        let x: usize = pixel % width;
        let base: usize = y * rowstride + x * channels;
        let alpha: u8 = if channels >= 4 {
            image.data[base + 3]
        } else {
            255
        };
        proof {
            assert((4 * pixel + 1) / 4 == pixel && (4 * pixel + 1) % 4 == 1);
            assert((4 * pixel + 2) / 4 == pixel && (4 * pixel + 2) % 4 == 2);
            assert((4 * pixel + 3) / 4 == pixel && (4 * pixel + 3) % 4 == 3);
            assert((4 * pixel) / 4 == pixel as int && (4 * pixel) % 4 == 0);
        }
        buffer.push(image.data[base + 2]);
        buffer.push(image.data[base + 1]);
        buffer.push(image.data[base]);
        buffer.push(alpha);
        pixel = pixel + 1;
    }
    assert(4 * image.width * image.height == 4 * (image.width * image.height)) by (nonlinear_arith);
    Some(Pixels { width: image.width as u32, height: image.height as u32, bgra: buffer })
}

/// What a hint holds, as far as notifications make use of it.
#[derive(Debug)]
pub enum HintValue {
    Byte(u8),
    Text(String),
    Image(ImageData),
    Other,
}

/// A named hint.
#[derive(Debug)]
pub struct Hint {
    pub key: String,
    pub value: HintValue,
}

/// The position of the first hint at or after `from` that goes by `key`.
pub open spec fn hint_from(hints: Seq<Hint>, from: int, key: Seq<char>) -> Option<int>
    decreases hints.len() - from,
{
    if from >= hints.len() {
        None
    } else if hints[from].key@ == key {
        Some(from)
    } else {
        hint_from(hints, from + 1, key)
    }
}

/// The value of the hint that goes by `key`.
pub open spec fn hint(hints: Seq<Hint>, key: Seq<char>) -> Option<HintValue> {
    match hint_from(hints, 0, key) {
        Some(i) => Some(hints[i].value),
        None => None,
    }
}

/// The value of the hint that goes by `key`.
pub fn find_hint<'a>(hints: &'a Vec<Hint>, key: &str) -> (r: Option<&'a HintValue>)
    ensures
        match r {
            Some(value) => hint(hints@, key@) == Some(*value),
            None => hint(hints@, key@) is None,
        },
{
    let mut i: usize = 0;
    while i < hints.len()
        invariant
            i <= hints@.len(),
            hint_from(hints@, 0, key@) == hint_from(hints@, i as int, key@),
        decreases hints@.len() - i,
    {
        if same(&hints[i].key, key) {
            return Some(&hints[i].value);
        }
        i = i + 1;
    }
    None
}

/// The urgency that hints ask for; normal unless they name another.
pub open spec fn urgency_of(hints: Seq<Hint>) -> Urgency {
    match hint(hints, "urgency"@) {
        Some(HintValue::Byte(0)) => Urgency::Low,
        Some(HintValue::Byte(2)) => Urgency::Critical,
        _ => Urgency::Normal,
    }
}

/// Reads the `urgency` hint.
pub fn urgency_from_hints(hints: &Vec<Hint>) -> (r: Urgency)
    ensures
        r == urgency_of(hints@),
{
    match find_hint(hints, "urgency") {
        Some(HintValue::Byte(value)) => Urgency::from_hint(*value),
        _ => Urgency::Normal,
    }
}

/// The image payload that hints carry, under the newest of its three names that
/// they use.
pub open spec fn image_hint(hints: Seq<Hint>) -> Option<HintValue> {
    match (hint(hints, "image-data"@), hint(hints, "image_data"@)) {
        (Some(value), _) => Some(value),
        (None, Some(value)) => Some(value),
        (None, None) => hint(hints, "icon_data"@),
    }
}

/// Reads the picture that hints carry, if they carry a complete one.
pub fn image_from_hints(hints: &Vec<Hint>) -> (r: Option<Pixels>)
    ensures
        match image_hint(hints@) {
            Some(HintValue::Image(image)) => {
                &&& r is Some <==> image.complete()
                &&& r matches Some(pixels) ==> {
                    &&& pixels.width == image.width
                    &&& pixels.height == image.height
                    &&& pixels.bgra@.len() == 4 * image.width * image.height
                    &&& forall|i: int|
                        0 <= i < pixels.bgra@.len() ==> pixels.bgra@[i] == image.bgra(i)
                }
            },
            _ => r is None,
        },
{
    let value = match find_hint(hints, "image-data") {
        Some(value) => Some(value),
        None => match find_hint(hints, "image_data") {
            Some(value) => Some(value),
            None => find_hint(hints, "icon_data"),
        },
    };
    match value {
        Some(HintValue::Image(image)) => render_image_from_data(image),
        _ => None,
    }
}

/// Where an icon is to be looked for.
#[derive(Debug)]
pub enum IconSource {
    /// A file, which has to exist.
    File(String),
    /// A name in the icon theme, looked up at [`ICON_LOOKUP_SIZE`].
    Named(String),
}

/// A place to look for an icon, as a value.
#[verifier::ext_equal]
pub enum IconPlace {
    File(Seq<char>),
    Named(Seq<char>),
}

impl View for IconSource {
    type V = IconPlace;

    open spec fn view(&self) -> IconPlace {
        match self {
            IconSource::File(path) => IconPlace::File(path@),
            IconSource::Named(name) => IconPlace::Named(name@),
        }
    }
}

/// The text that percent-encoded text stands for, or nothing where the decoded
/// bytes are not UTF-8: what `urlencoding::decode` makes of it.
pub uninterp spec fn percent_decoded(text: Seq<char>) -> Option<Seq<char>>;

/// `urlencoding::decode` undoes percent-encoding. Text without a `%` comes back
/// as it is.
#[verifier::external_body]
fn percent_decode(text: &str) -> (r: Option<String>)
    ensures
        crate::text::opt_view(r) == percent_decoded(text@),
        !text@.contains('%') ==> crate::text::opt_view(r) == Some(text@),
{
    urlencoding::decode(text).ok().map(|decoded| decoded.into_owned())
}

/// The file that a `file://` address names, given what decoding its path gave:
/// the path as it stands where it cannot be decoded.
pub open spec fn decoded_or_raw(raw: Seq<char>, decoded: Option<Seq<char>>) -> Seq<char> {
    match decoded {
        Some(path) => path,
        None => raw,
    }
}

/// Where an `app_icon` or `image-path` value says to look: at an absolute path,
/// at a `file://` address, or for an icon name.
pub open spec fn icon_place(spec_text: Seq<char>) -> Option<IconPlace> {
    if spec_text.len() == 0 {
        None
    } else if "file://"@.is_prefix_of(spec_text) {
        let raw = spec_text.skip("file://"@.len() as int);
        Some(IconPlace::File(decoded_or_raw(raw, percent_decoded(raw))))
    } else if spec_text[0] == '/' {
        Some(IconPlace::File(spec_text))
    } else {
        Some(IconPlace::Named(spec_text))
    }
}

/// The path a `file://` address stands for, given what decoding it gave.
pub fn file_path(raw: String, decoded: Option<String>) -> (r: String)
    ensures
        r@ == decoded_or_raw(raw@, crate::text::opt_view(decoded)),
{
    match decoded {
        Some(path) => path,
        None => raw,
    }
}

/// Reads an `app_icon` or `image-path` value; see [`icon_place`].
pub fn icon_source(spec_text: &str) -> (r: Option<IconSource>)
    ensures
        match r {
            Some(source) => icon_place(spec_text@) == Some(source@),
            None => icon_place(spec_text@) is None,
        },
{
    if spec_text.is_empty() {
        return None;
    }
    match crate::text::strip_prefix(spec_text, "file://") {
        Some(rest) => {
            let decoded = percent_decode(&rest);
            Some(IconSource::File(file_path(rest, decoded)))
        },
        None => {
            let v = chars_of(spec_text);
            let text = spec_text.to_owned();
            if v[0] == '/' {
                Some(IconSource::File(text))
            } else {
                Some(IconSource::Named(text))
            }
        },
    }
}

/// Where a text hint says to look for an icon.
pub open spec fn hinted_place(value: Option<HintValue>) -> Option<IconPlace> {
    match value {
        Some(HintValue::Text(text)) => icon_place(text@),
        _ => None,
    }
}

/// The value of the `image-path` hint, under the newer of its two names that
/// hints use.
pub open spec fn path_hint(hints: Seq<Hint>) -> Option<HintValue> {
    match hint(hints, "image-path"@) {
        Some(value) => Some(value),
        None => hint(hints, "image_path"@),
    }
}

/// A sequence of one place, or of none.
pub open spec fn one_place(place: Option<IconPlace>) -> Seq<IconPlace> {
    match place {
        Some(place) => seq![place],
        None => Seq::empty(),
    }
}

/// The places to look for a notification's icon, best first: the path it hints
/// at, its `app_icon`, and the icon named after its desktop entry. Many
/// applications set only the last.
pub open spec fn icon_places(hints: Seq<Hint>, app_icon: Seq<char>) -> Seq<IconPlace> {
    one_place(hinted_place(path_hint(hints))) + one_place(icon_place(app_icon)) + one_place(
        hinted_place(hint(hints, "desktop-entry"@)),
    )
}

/// The views of icon sources.
pub open spec fn places(sources: Seq<IconSource>) -> Seq<IconPlace> {
    sources.map_values(|s: IconSource| s@)
}

/// Reads a hint that says where to look for an icon.
fn hinted_source(value: Option<&HintValue>) -> (r: Option<IconSource>)
    ensures
        match r {
            Some(source) => hinted_place(
                match value {
                    Some(v) => Some(*v),
                    None => None,
                },
            ) == Some(source@),
            None => hinted_place(
                match value {
                    Some(v) => Some(*v),
                    None => None,
                },
            ) is None,
        },
{
    match value {
        Some(HintValue::Text(text)) => icon_source(text),
        _ => None,
    }
}

/// Lists where to look for a notification's icon; see [`icon_places`].
pub fn icon_sources(hints: &Vec<Hint>, app_icon: &str) -> (r: Vec<IconSource>)
    ensures
        places(r@) == icon_places(hints@, app_icon@),
{
    let mut out: Vec<IconSource> = Vec::new();
    let path = match find_hint(hints, "image-path") {
        Some(value) => Some(value),
        None => find_hint(hints, "image_path"),
    };
    if let Some(source) = hinted_source(path) {
        out.push(source);
    }
    assert(places(out@) =~= one_place(hinted_place(path_hint(hints@))));
    if let Some(source) = icon_source(app_icon) {
        out.push(source);
    }
    assert(places(out@) =~= one_place(hinted_place(path_hint(hints@))) + one_place(
        icon_place(app_icon@),
    ));
    if let Some(source) = hinted_source(find_hint(hints, "desktop-entry")) {
        out.push(source);
    }
    assert(places(out@) =~= icon_places(hints@, app_icon@));
    out
}

/// The first of a list of lookups, from `from` on, that found something.
pub open spec fn first_found(found: Seq<Option<String>>, from: int) -> Option<Seq<char>>
    decreases found.len() - from,
{
    if from >= found.len() {
        None
    } else if found[from] is Some {
        crate::text::opt_view(found[from])
    } else {
        first_found(found, from + 1)
    }
}

/// Picks the first lookup that found something.
pub fn pick_found(found: &Vec<Option<String>>) -> (r: Option<String>)
    ensures
        crate::text::opt_view(r) == first_found(found@, 0),
{
    let mut i: usize = 0;
    while i < found.len()
        invariant
            i <= found@.len(),
            first_found(found@, 0) == first_found(found@, i as int),
        decreases found@.len() - i,
    {
        if let Some(path) = &found[i] {
            return Some(path.clone());
        }
        i = i + 1;
    }
    None
}

/// A notification as the daemon keeps it.
#[derive(Debug)]
pub struct Notification {
    pub id: u32,
    pub app_name: String,
    pub summary: String,
    pub body: String,
    pub urgency: Urgency,
    pub expire_timeout: i32,
    pub actions: Vec<NotificationAction>,
    /// Decoded pixels from an `image-data` hint, ready to render.
    pub image: Option<Pixels>,
    /// The icon's file, where there is no image.
    pub icon_path: Option<String>,
    /// The raw `app_icon` argument, kept for the persisted history.
    pub app_icon: String,
    /// When this notification was received, in nanoseconds of a running clock.
    pub received: u64,
}

/// A notification as a value.
#[verifier::ext_equal]
pub struct NotificationView {
    pub id: u32,
    pub app_name: Seq<char>,
    pub summary: Seq<char>,
    pub body: Seq<char>,
    pub urgency: Urgency,
    pub expire_timeout: i32,
    pub actions: Seq<(Seq<char>, Seq<char>)>,
    pub image: Option<(u32, u32, Seq<u8>)>,
    pub icon_path: Option<Seq<char>>,
    pub app_icon: Seq<char>,
    pub received: u64,
}

/// Actions as pairs of key and label.
pub open spec fn action_pairs(actions: Seq<NotificationAction>) -> Seq<(Seq<char>, Seq<char>)> {
    actions.map_values(|a: NotificationAction| (a.key@, a.label@))
}

impl View for Notification {
    type V = NotificationView;

    open spec fn view(&self) -> NotificationView {
        NotificationView {
            id: self.id,
            app_name: self.app_name@,
            summary: self.summary@,
            body: self.body@,
            urgency: self.urgency,
            expire_timeout: self.expire_timeout,
            actions: action_pairs(self.actions@),
            image: match self.image {
                Some(pixels) => Some((pixels.width, pixels.height, pixels.bgra@)),
                None => None,
            },
            icon_path: crate::text::opt_view(self.icon_path),
            app_icon: self.app_icon@,
            received: self.received,
        }
    }
}

/// The views of a list of notifications.
pub open spec fn notification_views(list: Seq<Notification>) -> Seq<NotificationView> {
    list.map_values(|n: Notification| n@)
}

impl Clone for Pixels {
    fn clone(&self) -> (r: Self)
        ensures
            r.width == self.width,
            r.height == self.height,
            r.bgra@ == self.bgra@,
    {
        let mut bgra: Vec<u8> = Vec::new();
        for i in 0..self.bgra.len()
            invariant
                bgra@ == self.bgra@.take(i as int),
        {
            bgra.push(self.bgra[i]);
        }
        assert(self.bgra@.take(self.bgra@.len() as int) =~= self.bgra@);
        Pixels { width: self.width, height: self.height, bgra }
    }
}

impl Clone for NotificationAction {
    fn clone(&self) -> (r: Self)
        ensures
            r.key@ == self.key@,
            r.label@ == self.label@,
    {
        NotificationAction { key: self.key.clone(), label: self.label.clone() }
    }
}

impl Clone for Notification {
    fn clone(&self) -> (r: Self)
        ensures
            r@ == self@,
    {
        let mut actions: Vec<NotificationAction> = Vec::new();
        for i in 0..self.actions.len()
            invariant
                actions@.len() == i,
                forall|j: int|
                    0 <= j < i ==> (#[trigger] actions@[j]).key@ == self.actions@[j].key@
                        && actions@[j].label@ == self.actions@[j].label@,
        {
            actions.push(self.actions[i].clone());
        }
        assert(action_pairs(actions@) =~= action_pairs(self.actions@));
        let image = match &self.image {
            Some(pixels) => Some(pixels.clone()),
            None => None,
        };
        let icon_path = match &self.icon_path {
            Some(path) => Some(path.clone()),
            None => None,
        };
        Notification {
            id: self.id,
            app_name: self.app_name.clone(),
            summary: self.summary.clone(),
            body: self.body.clone(),
            urgency: self.urgency,
            expire_timeout: self.expire_timeout,
            actions,
            image,
            icon_path,
            app_icon: self.app_icon.clone(),
            received: self.received,
        }
    }
}

/// Pairs up the keys and labels that actions arrive as; an odd one at the end is
/// dropped.
pub fn pair_actions(actions: &Vec<String>) -> (r: Vec<NotificationAction>)
    ensures
        r@.len() == actions@.len() / 2,
        forall|i: int|
            0 <= i < r@.len() ==> (#[trigger] r@[i]).key@ == actions@[2 * i]@ && r@[i].label@
                == actions@[2 * i + 1]@,
{
    let mut out: Vec<NotificationAction> = Vec::new();
    let total: usize = actions.len();
    let n: usize = total / 2;
    for i in 0..n
        invariant
            total == actions@.len(),
            n == total / 2,
            out@.len() == i,
            forall|j: int|
                0 <= j < i ==> (#[trigger] out@[j]).key@ == actions@[2 * j]@ && out@[j].label@
                    == actions@[2 * j + 1]@,
    {
        out.push(
            NotificationAction { key: actions[2 * i].clone(), label: actions[2 * i + 1].clone() },
        );
    }
    out
}

impl Notification {
    /// Takes a notification in from the bus. `found` is what was found on disk at
    /// each of [`icon_sources`]; it matters only where there is no image.
    pub fn from_dbus(
        id: u32,
        app_name: String,
        app_icon: String,
        summary: String,
        body: String,
        actions: Vec<String>,
        hints: &Vec<Hint>,
        expire_timeout: i32,
        found: &Vec<Option<String>>,
        received: u64,
    ) -> (r: Self)
        ensures
            r.id == id,
            r.app_name@ == app_name@,
            r.app_icon@ == app_icon@,
            r.summary@ == summary@,
            r.body@ == crate::markup::stripped(body@),
            r.urgency == urgency_of(hints@),
            r.expire_timeout == expire_timeout,
            r.received == received,
            r.actions@.len() == actions@.len() / 2,
            forall|i: int|
                0 <= i < r.actions@.len() ==> (#[trigger] r.actions@[i]).key@ == actions@[2 * i]@
                    && r.actions@[i].label@ == actions@[2 * i + 1]@,
            r.image is Some <==> (image_hint(hints@) matches Some(HintValue::Image(image))
                && image.complete()),
            r.image matches Some(pixels) ==> (image_hint(hints@) matches Some(
                HintValue::Image(image),
            ) && {
                &&& pixels.width == image.width
                &&& pixels.height == image.height
                &&& pixels.bgra@.len() == 4 * image.width * image.height
                &&& forall|i: int|
                    0 <= i < pixels.bgra@.len() ==> pixels.bgra@[i] == image.bgra(i)
            }),
            crate::text::opt_view(r.icon_path) == (if r.image is Some {
                None
            } else {
                first_found(found@, 0)
            }),
    {
        let urgency = urgency_from_hints(hints);
        let image = image_from_hints(hints);
        let icon_path = if image.is_some() {
            None
        } else {
            pick_found(found)
        };
        Notification {
            id,
            app_name,
            summary,
            body: strip_body_markup(body),
            urgency,
            expire_timeout,
            actions: pair_actions(&actions),
            image,
            icon_path,
            app_icon,
            received,
        }
    }

    /// The lifetime in milliseconds: the one asked for, or the server's own where
    /// the client leaves it open. Zero means that the notification never expires
    /// on its own, which a critical one only does when told to.
    pub open spec fn timeout_ms(&self) -> int {
        if self.expire_timeout < 0 {
            if self.urgency == Urgency::Critical {
                0
            } else {
                DEFAULT_TIMEOUT_MS as int
            }
        } else {
            self.expire_timeout as int
        }
    }

    /// The effective lifetime in milliseconds; see [`Self::timeout_ms`].
    pub fn effective_timeout_ms(&self) -> (r: u64)
        ensures
            r == self.timeout_ms(),
    {
        if self.expire_timeout < 0 {
            match self.urgency {
                Urgency::Critical => 0,
                _ => DEFAULT_TIMEOUT_MS,
            }
        } else {
            self.expire_timeout as u64
        }
    }
}

impl Notification {
    /// A notification that leaves its lifetime to the server stays until it is dismissed
    /// exactly if it is critical, and goes after five seconds otherwise, whether its urgency
    /// is low or normal.
    pub proof fn law_default_lifetimes(&self)
        requires
            self.expire_timeout < 0,
        ensures
            self.timeout_ms() == 0 <==> self.urgency == Urgency::Critical,
            self.urgency == Urgency::Low || self.urgency == Urgency::Normal ==> self.timeout_ms()
                == 5000,
    {
    }

    /// A lifetime that is asked for is the one that counts, to the millisecond and whatever
    /// the urgency; one of nothing means that the notification stays.
    pub proof fn law_given_lifetimes(&self)
        requires
            self.expire_timeout >= 0,
        ensures
            self.timeout_ms() == self.expire_timeout,
    {
    }
}

proof fn lemma_hint_from(hints: Seq<Hint>, from: int, key: Seq<char>)
    requires
        0 <= from,
    ensures
        match hint_from(hints, from, key) {
            Some(i) => from <= i < hints.len() && hints[i].key@ == key && forall|j: int|
                from <= j < i ==> (#[trigger] hints[j]).key@ != key,
            None => forall|j: int| from <= j < hints.len() ==> (#[trigger] hints[j]).key@ != key,
        },
    decreases hints.len() - from,
{
    if from < hints.len() && hints[from].key@ != key {
        lemma_hint_from(hints, from + 1, key);
    }
}

/// The first hint under a key is the one that counts, wherever it stands, and there is
/// none only if no hint has that key.
pub proof fn law_first_hint_counts(hints: Seq<Hint>, key: Seq<char>, i: int)
    requires
        0 <= i < hints.len(),
        hints[i].key@ == key,
        forall|j: int| 0 <= j < i ==> (#[trigger] hints[j]).key@ != key,
    ensures
        hint(hints, key) == Some(hints[i].value),
{
    lemma_hint_from(hints, 0, key);
}

/// No hint is made up: what is found under a key stands among the hints under it.
pub proof fn law_hints_are_given(hints: Seq<Hint>, key: Seq<char>)
    ensures
        hint(hints, key) matches Some(value) ==> exists|i: int|
            0 <= i < hints.len() && (#[trigger] hints[i]).key@ == key && hints[i].value == value,
        hint(hints, key) is None <==> forall|i: int|
            0 <= i < hints.len() ==> (#[trigger] hints[i]).key@ != key,
{
    lemma_hint_from(hints, 0, key);
}

/// The urgency that a client names by its number is the one that the notification gets; a
/// number that there is no urgency for, a hint that is no number, and no hint at all make it
/// a normal one.
pub proof fn law_urgency_is_the_hint(hints: Seq<Hint>)
    ensures
        hint(hints, "urgency"@) matches Some(HintValue::Byte(n)) ==> (n <= 2 ==> urgency_of(
            hints,
        ).number() == n) && (n > 2 ==> urgency_of(hints) == Urgency::Normal),
        !(hint(hints, "urgency"@) matches Some(HintValue::Byte(n))) ==> urgency_of(hints)
            == Urgency::Normal,
        urgency_of(hints) == Urgency::Critical <==> hint(hints, "urgency"@) == Some(
            HintValue::Byte(2),
        ),
        urgency_of(hints) == Urgency::Low <==> hint(hints, "urgency"@) == Some(HintValue::Byte(0)),
{
}

/// Urgencies are numbered from low to critical.
pub proof fn law_urgencies_are_numbered()
    ensures
        Urgency::Low.number() == 0,
        Urgency::Normal.number() == 1,
        Urgency::Critical.number() == 2,
{
}

/// Every pixel of an image keeps its place and its colours: red, green and blue, which come
/// in this order, are given in the reverse one, and the opacity is that of the image, or
/// full where it has none.
pub proof fn law_pixels_keep_their_colours(image: &ImageData, x: int, y: int)
    requires
        image.complete(),
        0 <= x < image.width,
        0 <= y < image.height,
    ensures
        ({
            let at = 4 * (y * image.width + x);
            let from = y * image.rowstride + x * image.channels;
            &&& image.bgra(at) == image.data@[from + 2]
            &&& image.bgra(at + 1) == image.data@[from + 1]
            &&& image.bgra(at + 2) == image.data@[from]
            &&& image.bgra(at + 3) == (if image.channels >= 4 {
                image.data@[from + 3]
            } else {
                255
            })
            &&& 0 <= from && from + 3 <= image.data@.len()
        }),
{
    let w = image.width as int;
    let pixel = y * w + x;
    let stride = image.rowstride as int;
    let ch = image.channels as int;
    vstd::arithmetic::div_mod::lemma_fundamental_div_mod_converse(pixel, w, y, x);
    assert(0 <= y * w) by (nonlinear_arith)
        requires
            0 <= y,
            0 < w,
    ;
    assert(0 <= y * stride && 0 <= x * ch) by (nonlinear_arith)
        requires
            0 <= y,
            0 <= x,
            0 < stride,
            0 < ch,
    ;
    assert(y * stride + stride <= stride * image.height) by (nonlinear_arith)
        requires
            0 < stride,
            y + 1 <= image.height,
    ;
    assert(x * ch + ch <= w * ch) by (nonlinear_arith)
        requires
            x + 1 <= w,
            0 < ch,
    ;
}

/// An image is drawn exactly if it has a size, at least three channels, rows that are long
/// enough for its pixels, and as many rows as it says.
pub proof fn law_whole_images_are_drawn(image: &ImageData)
    ensures
        image.complete() <==> (image.width >= 1 && image.height >= 1 && image.channels >= 3
            && image.rowstride >= 1 && image.width * image.channels <= image.rowstride
            && image.rowstride * image.height <= image.data@.len()),
{
}

/// Of the hints that an image may come in, the one with the newest name counts, and an older
/// one only where the newer ones are missing.
pub proof fn law_newer_image_hints_come_first(hints: Seq<Hint>)
    ensures
        hint(hints, "image-data"@) is Some ==> image_hint(hints) == hint(hints, "image-data"@),
        hint(hints, "image-data"@) is None && hint(hints, "image_data"@) is Some ==> image_hint(
            hints,
        ) == hint(hints, "image_data"@),
        hint(hints, "image-data"@) is None && hint(hints, "image_data"@) is None ==> image_hint(
            hints,
        ) == hint(hints, "icon_data"@),
        hint(hints, "image-path"@) is Some ==> path_hint(hints) == hint(hints, "image-path"@),
        hint(hints, "image-path"@) is None ==> path_hint(hints) == hint(hints, "image_path"@),
{
}

/// An icon that is given as an address of a file is that file, its path taken out of the
/// address; one that is given as a path is the file at that path; anything else but nothing
/// is the name of an icon.
pub proof fn law_icons_are_files_or_names(path: Seq<char>)
    ensures
        icon_place("file://"@ + path) == Some(
            IconPlace::File(
                match percent_decoded(path) {
                    Some(decoded) => decoded,
                    None => path,
                },
            ),
        ),
        icon_place(seq!['/'] + path) == Some(IconPlace::File(seq!['/'] + path)),
        icon_place(Seq::empty()) is None,
        path.len() > 0 && path[0] != '/' && !"file://"@.is_prefix_of(path) ==> icon_place(path)
            == Some(IconPlace::Named(path)),
        path.len() > 0 ==> icon_place(path) is Some,
{
    reveal_strlit("file://");
    let address = "file://"@ + path;
    assert(address.skip(7) =~= path);
    assert("file://"@.is_prefix_of(address)) by {
        assert(address.subrange(0, 7) =~= "file://"@);
    }
    let absolute = seq!['/'] + path;
    assert(absolute[0] == '/');
    assert(!"file://"@.is_prefix_of(absolute)) by {
        if "file://"@.is_prefix_of(absolute) {
            assert("file://"@[0] == absolute[0]);
        }
    }
}

/// An icon is looked for where the notification says that its picture is, then under the
/// icon of the application, then under that of its desktop entry, and nowhere else.
pub proof fn law_icons_are_looked_for_in_order(hints: Seq<Hint>, app_icon: Seq<char>)
    ensures
        ({
            let picture = hinted_place(path_hint(hints));
            let own = icon_place(app_icon);
            let entry = hinted_place(hint(hints, "desktop-entry"@));
            let all = icon_places(hints, app_icon);
            &&& all.len() == (if picture is Some {
                1int
            } else {
                0
            }) + (if own is Some {
                1int
            } else {
                0
            }) + (if entry is Some {
                1int
            } else {
                0
            })
            &&& picture is Some ==> all[0] == picture->0
            &&& entry is Some ==> all.last() == entry->0
            &&& own is Some ==> all[if picture is Some {
                1
            } else {
                0
            }] == own->0
        }),
{
}

/// What a hint says of an icon counts only if it is a text.
pub proof fn law_icon_hints_are_texts(value: HintValue)
    ensures
        value matches HintValue::Text(text) ==> hinted_place(Some(value)) == icon_place(text@),
        !(value matches HintValue::Text(text)) ==> hinted_place(Some(value)) is None,
        hinted_place(None) is None,
{
}

proof fn lemma_first_found(found: Seq<Option<String>>, from: int)
    requires
        0 <= from,
    ensures
        match first_found(found, from) {
            Some(text) => exists|i: int|
                from <= i < found.len() && crate::text::opt_view(#[trigger] found[i]) == Some(text)
                    && forall|j: int| from <= j < i ==> (#[trigger] found[j]) is None,
            None => forall|j: int| from <= j < found.len() ==> (#[trigger] found[j]) is None,
        },
    decreases found.len() - from,
{
    if from < found.len() {
        if found[from] is None {
            lemma_first_found(found, from + 1);
        } else {
            assert(crate::text::opt_view(found[from]) is Some);
        }
    }
}

/// Of several places in which an icon was looked for, the first in which it was found
/// counts.
pub proof fn law_first_found_counts(found: Seq<Option<String>>, i: int)
    requires
        0 <= i < found.len(),
        found[i] is Some,
        forall|j: int| 0 <= j < i ==> (#[trigger] found[j]) is None,
    ensures
        first_found(found, 0) == Some(found[i]->0@),
{
    lemma_first_found(found, 0);
}

/// An icon is found only where it was found in one of the places.
pub proof fn law_nothing_found_is_nothing(found: Seq<Option<String>>)
    ensures
        first_found(found, 0) is None <==> forall|j: int|
            0 <= j < found.len() ==> (#[trigger] found[j]) is None,
{
    lemma_first_found(found, 0);
}

} // verus!
