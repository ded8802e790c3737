//! Icons: decoded from their files, and kept in the form that the screen takes.
use crate::paths;
use crate::paths::extension_of;
use crate::text;
use vstd::prelude::*;

verus! {

/// A picture of four bytes a pixel: blue, green and red as far as the pixel covers, and how far
/// that is.
#[derive(Debug)]
pub struct PngImage {
    pub width: i32,
    pub height: i32,
    pub bgra: Vec<u8>,
}

/// A picture of four bytes a pixel: red, green, blue, and how far the pixel covers.
#[derive(Debug)]
pub struct RgbaPicture {
    pub width: u32,
    pub height: u32,
    pub rgba: Vec<u8>,
}

#[verifier::ext_equal]
pub struct PictureView {
    pub width: u32,
    pub height: u32,
    pub rgba: Seq<u8>,
}

impl View for RgbaPicture {
    type V = PictureView;

    open spec fn view(&self) -> PictureView {
        PictureView { width: self.width, height: self.height, rgba: self.rgba@ }
    }
}

/// The picture that `image` reads from the bytes of a file of that name, or what it says of the
/// error.
pub uninterp spec fn decoded_picture(file: Seq<char>, bytes: Seq<u8>) -> Result<
    PictureView,
    Seq<char>,
>;

/// `image::load_from_memory_with_format` with the format that `image::ImageFormat::from_path` finds
/// for `file`, and `DynamicImage::to_rgba8` on what it reads; or the message of the error. Which
/// picture that is is left unsaid; it is taken on trust that it has four bytes for each of its
/// pixels.
#[verifier::external_body]
fn decode(file: &str, bytes: &Vec<u8>) -> (picture: Result<RgbaPicture, String>)
    ensures
        decoded_picture(file@, bytes@) == match picture {
            Ok(picture) => Ok::<PictureView, Seq<char>>(picture@),
            Err(message) => Err::<PictureView, Seq<char>>(message@),
        },
        picture matches Ok(p) ==> p.rgba@.len() == p.width * p.height * 4,
{
    let format = image::ImageFormat::from_path(file).map_err(|error| error.to_string())?;
    let image = image::load_from_memory_with_format(bytes, format)
        .map_err(|error| error.to_string())?
        .to_rgba8();
    let (width, height) = image.dimensions();
    Ok(RgbaPicture { width, height, rgba: image.into_raw() })
}

/// A file name with the extension of the path, which tells the format of the file; without one
/// where the path has none, or an empty one.
pub open spec fn format_name(path: Seq<char>) -> Seq<char> {
    match extension_of(path) {
        Some(extension) => if extension.len() > 0 {
            "icon."@ + extension
        } else {
            "icon"@
        },
        None => "icon"@,
    }
}

fn name_for_format(path: &str) -> (name: String)
    ensures
        name@ == format_name(path@),
{
    if let Some(extension) = paths::extension(path) {
        if text::to_chars(&extension).len() > 0 {
            let mut name = "icon.".to_owned();
            name.append(&extension);
            return name;
        }
    }
    "icon".to_owned()
}

/// The picture that the bytes of the file at `path` hold.
pub open spec fn picture_at(path: Seq<char>, bytes: Seq<u8>) -> Result<PictureView, Seq<char>> {
    decoded_picture(format_name(path), bytes)
}

/// A colour as far as the pixel covers.
pub open spec fn covered(colour: u8, alpha: u8) -> u8 {
    (colour as int * alpha as int / 255) as u8
}

/// The bytes of the pixels in the form that the screen takes.
pub open spec fn premultiplied(rgba: Seq<u8>) -> Seq<u8> {
    Seq::new(
        rgba.len(),
        |i: int|
            if i % 4 == 0 {
                covered(rgba[i + 2], rgba[i + 3])
            } else if i % 4 == 1 {
                covered(rgba[i], rgba[i + 2])
            } else if i % 4 == 2 {
                covered(rgba[i - 2], rgba[i + 1])
            } else {
                rgba[i]
            },
    )
}

fn cover(colour: u8, alpha: u8) -> (r: u8)
    ensures
        r == covered(colour, alpha),
{
    assert(0 <= colour as int * alpha as int <= 255 * 255) by (nonlinear_arith)
        requires
            0 <= colour <= 255,
            0 <= alpha <= 255,
    ;
    ((colour as u16 * alpha as u16) / 255) as u8
}

impl PngImage {
    /// The bytes are those of all pixels.
    pub open spec fn complete(self) -> bool {
        self.width >= 0 && self.height >= 0 && self.bgra@.len() == self.width * self.height * 4
    }

    /// A picture in the form that the screen takes.
    pub fn from_rgba(picture: &RgbaPicture) -> (image: Self)
        requires
            picture.rgba@.len() % 4 == 0,
        ensures
            image.width == picture.width as i32,
            image.height == picture.height as i32,
            image.bgra@ == premultiplied(picture.rgba@),
    {
        let ghost want = premultiplied(picture.rgba@);
        let mut bgra: Vec<u8> = Vec::new();
        let mut i: usize = 0;
        while i < picture.rgba.len()
            invariant
                i <= picture.rgba@.len(),
                i % 4 == 0,
                picture.rgba@.len() % 4 == 0,
                want == premultiplied(picture.rgba@),
                bgra@ == want.take(i as int),
            decreases picture.rgba@.len() - i,
        {
            let ghost before = bgra@;
            let red: u8 = picture.rgba[i];
            let green: u8 = picture.rgba[i + 1];
            let blue: u8 = picture.rgba[i + 2];
            let alpha: u8 = picture.rgba[i + 3];
            bgra.push(cover(blue, alpha));
            bgra.push(cover(green, alpha));
            bgra.push(cover(red, alpha));
            bgra.push(alpha);
            assert(bgra@ =~= want.take(i as int + 4));
            i += 4;
        }
        assert(want.take(i as int) =~= want);
        PngImage { width: picture.width as i32, height: picture.height as i32, bgra }
    }

    /// The icon that the bytes of the file at `path` hold. Its extension tells the format.
    pub fn load(path: &str, bytes: &Vec<u8>) -> (image: Result<Self, String>)
        ensures
            match image {
                Ok(image) => picture_at(path@, bytes@) matches Ok(picture) && image.width
                    == picture.width as i32 && image.height == picture.height as i32 && image.bgra@
                    == premultiplied(picture.rgba),
                Err(message) => picture_at(path@, bytes@) matches Err(error) && message@
                    == load_error(path@, error),
            },
    {
        match decode(&name_for_format(path), bytes) {
            Ok(picture) => {
                assert(picture.rgba@.len() % 4 == 0);
                Ok(PngImage::from_rgba(&picture))
            },
            Err(error) => {
                let mut message = "failed to load icon '".to_owned();
                message.append(path);
                message.append("': ");
                message.append(&error);
                Err(message)
            },
        }
    }

    /// The byte of a pixel.
    pub open spec fn byte_at(self, x: int, y: int, k: int) -> u8 {
        self.bgra@[(y * self.width + x) * 4 + k]
    }

    /// The picture in that size, each pixel that of the same relative place.
    pub open spec fn is_resized(self, size: (i32, i32), image: Self) -> bool {
        &&& image.width == size.0
        &&& image.height == size.1
        &&& image.complete()
        &&& forall|x: int, y: int, k: int|
            0 <= x < size.0 && 0 <= y < size.1 && 0 <= k < 4 ==> #[trigger] image.byte_at(x, y, k)
                == self.byte_at(x * self.width / size.0 as int, y * self.height / size.1 as int, k)
    }

    /// The picture in another size, each pixel that of the same relative place.
    pub fn resize_nearest(&self, width: i32, height: i32) -> (image: Self)
        requires
            self.complete(),
            self.width > 0,
            self.height > 0,
            width >= 0,
            height >= 0,
            self.width * self.height * 4 <= i32::MAX,
            width * self.width <= i32::MAX,
            height * self.height <= i32::MAX,
            width * height * 4 <= i32::MAX,
        ensures
            self.is_resized((width, height), image),
    {
        let mut bgra: Vec<u8> = Vec::new();
        let mut y: i32 = 0;
        let ghost w = self.width as int;
        let ghost h = self.height as int;
        assert(0 * width as int == 0);
        while y < height
            invariant
                0 <= y <= height,
                0 <= width,
                self.complete(),
                w == self.width > 0,
                h == self.height > 0,
                w * h * 4 <= i32::MAX,
                width * w <= i32::MAX,
                height * h <= i32::MAX,
                width * height * 4 <= i32::MAX,
                bgra@.len() == y * width * 4,
                forall|a: int, b: int, k: int|
                    #![trigger bgra@[(b * width + a) * 4 + k]]
                    0 <= a < width && 0 <= b < y && 0 <= k < 4 ==> bgra@[(b * width + a) * 4 + k]
                        == self.byte_at(a * w / width as int, b * h / height as int, k),
            decreases height - y,
        {
            proof {
                assert(0 <= y * h <= height * h) by (nonlinear_arith)
                    requires
                        0 <= y <= height,
                        h > 0,
                ;
                assert(0 <= y * h / height as int && y * h / height as int <= h - 1) by (nonlinear_arith)
                    requires
                        0 <= y < height,
                        h > 0,
                ;
            }
            let src_y: i32 = y * self.height / height;
            let mut x: i32 = 0;
            while x < width
                invariant
                    0 <= x <= width,
                    0 <= y < height,
                    self.complete(),
                    w == self.width > 0,
                    h == self.height > 0,
                    w * h * 4 <= i32::MAX,
                    width * w <= i32::MAX,
                    0 <= src_y < h,
                    src_y == y * h / height as int,
                    bgra@.len() == (y * width + x) * 4,
                    forall|a: int, b: int, k: int|
                        #![trigger bgra@[(b * width + a) * 4 + k]]
                        0 <= a < width && 0 <= b < y && 0 <= k < 4 ==> bgra@[(b * width + a) * 4 + k]
                            == self.byte_at(a * w / width as int, b * h / height as int, k),
                    forall|a: int, k: int|
                        #![trigger bgra@[(y * width + a) * 4 + k]]
                        0 <= a < x && 0 <= k < 4 ==> bgra@[(y * width + a) * 4 + k] == self.byte_at(
                            a * w / width as int,
                            src_y as int,
                            k,
                        ),
                decreases width - x,
            {
                proof {
                    assert(0 <= x * w <= width * w) by (nonlinear_arith)
                        requires
                            0 <= x <= width,
                            w > 0,
                    ;
                    assert(0 <= x * w / width as int && x * w / width as int <= w - 1) by (nonlinear_arith)
                        requires
                            0 <= x < width,
                            w > 0,
                    ;
                }
                let src_x: i32 = x * self.width / width;
                proof {
                    lemma_pixel(src_x as int, src_y as int, w, h);
                    lemma_rows(x as int, y as int, width as int);
                }
                let src: usize = ((src_y * self.width + src_x) * 4) as usize;
                let ghost before = bgra@;
                bgra.push(self.bgra[src]);
                bgra.push(self.bgra[src + 1]);
                bgra.push(self.bgra[src + 2]);
                bgra.push(self.bgra[src + 3]);
                proof {
                    let place = (y * width + x) * 4;
                    assert forall|a: int, b: int, k: int|
                        #![trigger bgra@[(b * width + a) * 4 + k]]
                        0 <= a < width && 0 <= b < y && 0 <= k < 4 implies bgra@[(b * width + a) * 4 + k]
                        == self.byte_at(a * w / width as int, b * h / height as int, k) by {
                        lemma_earlier_row(a, b, y as int, x as int, width as int);
                        assert(bgra@[(b * width + a) * 4 + k] == before[(b * width + a) * 4 + k]);
                    }
                    assert forall|a: int, k: int|
                        #![trigger bgra@[(y * width + a) * 4 + k]]
                        0 <= a < x + 1 && 0 <= k < 4 implies bgra@[(y * width + a) * 4 + k]
                        == self.byte_at(a * w / width as int, src_y as int, k) by {
                        if a < x {
                            assert((y * width + a) * 4 + k >= 0) by {
                                lemma_rows(a, y as int, width as int);
                            }
                            assert(bgra@[(y * width + a) * 4 + k] == before[(y * width + a) * 4 + k]);
                        } else {
                            assert((y * width + a) * 4 + k == place + k);
                        }
                    }
                }
                x += 1;
            }
            proof {
                assert((y + 1) * width == y * width + width) by (nonlinear_arith);
                assert((y * width + width) * 4 == (y + 1) * width * 4);
            }
            y += 1;
        }
        let image = PngImage { width, height, bgra };
        assert(height * width * 4 == width * height * 4) by (nonlinear_arith);
        assert forall|x: int, y: int, k: int|
            0 <= x < width && 0 <= y < height && 0 <= k < 4 implies #[trigger] image.byte_at(x, y, k)
            == self.byte_at(x * self.width / width as int, y * self.height / height as int, k) by {
            assert(image.bgra@[(y * width + x) * 4 + k] == image.byte_at(x, y, k));
        }
        image
    }
}

proof fn lemma_pixel(x: int, y: int, width: int, height: int)
    requires
        0 <= x < width,
        0 <= y < height,
    ensures
        0 <= y * width,
        (y * width + x) * 4 + 4 <= width * height * 4,
        0 <= y * width + x,
{
    assert(0 <= y * width && y * width + x + 1 <= width * height) by (nonlinear_arith)
        requires
            0 <= x < width,
            0 <= y < height,
    ;
}

proof fn lemma_rows(x: int, y: int, width: int)
    requires
        0 <= x <= width,
        0 <= y,
    ensures
        0 <= y * width,
        0 <= (y * width + x) * 4,
{
    assert(0 <= y * width) by (nonlinear_arith)
        requires
            0 <= y,
            0 <= width,
    ;
}

proof fn lemma_earlier_row(a: int, b: int, y: int, x: int, width: int)
    requires
        0 <= a < width,
        0 <= b < y,
        0 <= x <= width,
    ensures
        0 <= (b * width + a) * 4,
        (b * width + a) * 4 + 4 <= (y * width + x) * 4,
{
    assert(0 <= b * width && b * width + a + 1 <= y * width) by (nonlinear_arith)
        requires
            0 <= a < width,
            0 <= b < y,
    ;
}

/// What is said of an icon that cannot be loaded.
pub open spec fn load_error(path: Seq<char>, error: Seq<char>) -> Seq<char> {
    "failed to load icon '"@ + path + "': "@ + error
}

/// The icons of the program, as far as they could be loaded.
#[derive(Debug)]
pub struct IconSet {
    pub deco: Option<PngImage>,
    pub start: Option<PngImage>,
    pub wait: Option<PngImage>,
    pub timer: Option<PngImage>,
}

/// The file of an icon.
pub fn icon_file(name: &str) -> (file: String)
    ensures
        file@ == name@ + ".png"@,
{
    let mut file = name.to_owned();
    file.append(".png");
    file
}

pub open spec fn icon_named(icons: IconSet, name: Seq<char>) -> Option<PngImage> {
    if name == "deco"@ {
        icons.deco
    } else if name == "start"@ {
        icons.start
    } else if name == "wait"@ {
        icons.wait
    } else if name == "timer"@ {
        icons.timer
    } else {
        None
    }
}

impl IconSet {
    /// The icon of that name, where it could be loaded.
    #[must_use]
    pub fn get(&self, name: &str) -> (icon: Option<&PngImage>)
        ensures
            match icon {
                Some(icon) => icon_named(*self, name@) == Some(*icon),
                None => icon_named(*self, name@) is None,
            },
    {
        if text::same(name, "deco") {
            self.deco.as_ref()
        } else if text::same(name, "start") {
            self.start.as_ref()
        } else if text::same(name, "wait") {
            self.wait.as_ref()
        } else if text::same(name, "timer") {
            self.timer.as_ref()
        } else {
            None
        }
    }
}

/// A pixel that covers fully keeps its colours, and one that does not cover has none.
pub proof fn law_coverage_scales_colours(colour: u8)
    ensures
        covered(colour, 255) == colour,
        covered(colour, 0) == 0,
{
}

/// No colour exceeds how far its pixel covers.
pub proof fn law_colours_stay_within_coverage(colour: u8, alpha: u8)
    ensures
        covered(colour, alpha) <= alpha,
{
    assert(colour as int * alpha as int / 255 <= alpha as int) by (nonlinear_arith)
        requires
            0 <= colour <= 255,
            0 <= alpha <= 255,
    ;
    assert(0 <= colour as int * alpha as int / 255) by (nonlinear_arith)
        requires
            0 <= colour <= 255,
            0 <= alpha <= 255,
    ;
}

/// A pixel has its blue, its green and its red as far as it covers, and then how far that is.
pub proof fn law_pixels_are_blue_green_red(rgba: Seq<u8>, pixel: int)
    requires
        rgba.len() % 4 == 0,
        0 <= pixel < rgba.len() / 4,
    ensures
        premultiplied(rgba).len() == rgba.len(),
        premultiplied(rgba)[4 * pixel] == covered(rgba[4 * pixel + 2], rgba[4 * pixel + 3]),
        premultiplied(rgba)[4 * pixel + 1] == covered(rgba[4 * pixel + 1], rgba[4 * pixel + 3]),
        premultiplied(rgba)[4 * pixel + 2] == covered(rgba[4 * pixel], rgba[4 * pixel + 3]),
        premultiplied(rgba)[4 * pixel + 3] == rgba[4 * pixel + 3],
        rgba[4 * pixel + 3] == 255 ==> premultiplied(rgba)[4 * pixel] == rgba[4 * pixel + 2]
            && premultiplied(rgba)[4 * pixel + 2] == rgba[4 * pixel],
{
}

/// A picture in its own size is the same, and in any size its first pixel is.
pub proof fn law_own_size_keeps_the_picture(
    image: PngImage,
    same: PngImage,
    size: (i32, i32),
    other: PngImage,
)
    requires
        image.complete(),
        image.width > 0,
        image.height > 0,
        image.is_resized((image.width, image.height), same),
        size.0 > 0,
        size.1 > 0,
        image.is_resized(size, other),
    ensures
        forall|x: int, y: int, k: int|
            0 <= x < image.width && 0 <= y < image.height && 0 <= k < 4 ==> #[trigger] same.byte_at(
                x,
                y,
                k,
            ) == image.byte_at(x, y, k),
        forall|k: int| 0 <= k < 4 ==> #[trigger] other.byte_at(0, 0, k) == image.byte_at(0, 0, k),
        (other.width, other.height) == size,
        other.bgra@.len() == size.0 * size.1 * 4,
{
    assert forall|x: int, y: int, k: int|
        0 <= x < image.width && 0 <= y < image.height && 0 <= k < 4 implies #[trigger] same.byte_at(
        x,
        y,
        k,
    ) == image.byte_at(x, y, k) by {
        assert(x * image.width / image.width as int == x) by (nonlinear_arith)
            requires
                image.width > 0,
        ;
        assert(y * image.height / image.height as int == y) by (nonlinear_arith)
            requires
                image.height > 0,
        ;
    }
    assert forall|k: int| 0 <= k < 4 implies #[trigger] other.byte_at(0, 0, k) == image.byte_at(
        0,
        0,
        k,
    ) by {
        assert(0 * image.width / size.0 as int == 0 && 0 * image.height / size.1 as int == 0);
    }
}

/// Each icon is found by its own name, and no other name finds one.
pub proof fn law_icons_go_by_their_names(icons: IconSet, name: Seq<char>)
    ensures
        icon_named(icons, "deco"@) == icons.deco,
        icon_named(icons, "start"@) == icons.start,
        icon_named(icons, "wait"@) == icons.wait,
        icon_named(icons, "timer"@) == icons.timer,
        name != "deco"@ && name != "start"@ && name != "wait"@ && name != "timer"@ ==> icon_named(
            icons,
            name,
        ) is None,
{
    reveal_strlit("deco");
    reveal_strlit("start");
    reveal_strlit("wait");
    reveal_strlit("timer");
    assert("deco"@[0] == 'd' && "start"@[0] == 's' && "wait"@[0] == 'w' && "timer"@[0] == 't');
}

/// The extension of a file tells its format: files with the same one are read alike.
pub proof fn law_extension_tells_the_format(path: Seq<char>, other: Seq<char>, bytes: Seq<u8>)
    requires
        extension_of(path) == extension_of(other),
    ensures
        picture_at(path, bytes) == picture_at(other, bytes),
        extension_of(path) matches Some(extension) ==> (extension.len() > 0 ==> format_name(path)
            == "icon."@ + extension),
{
}

} // verus!
