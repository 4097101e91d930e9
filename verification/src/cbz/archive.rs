use vstd::prelude::*;
use crate::cbz::error::CbzError;
use crate::names::chars_of;

verus! {

/// Makes `zip::ZipArchive` known: a zip file's directory over a reader.
/// Nothing is claimed of what is in it.
#[verifier::external_type_specification]
#[verifier::external_body]
#[verifier::reject_recursive_types(R)]
pub struct ExZipArchive<R>(zip::ZipArchive<R>);

/// Makes `std::io::Cursor` known. Nothing is claimed of what is in it.
#[verifier::external_type_specification]
#[verifier::external_body]
#[verifier::reject_recursive_types(T)]
pub struct ExCursor<T>(std::io::Cursor<T>);

/// Makes `zip::result::ZipError` known. Nothing is claimed of what is in
/// it.
#[verifier::external_type_specification]
#[verifier::external_body]
pub struct ExZipError(zip::result::ZipError);

/// The names of an archive's entries, in the order of its directory; `None`
/// stands for an entry whose name cannot be decoded.
pub uninterp spec fn entry_names(archive: zip::ZipArchive<std::io::Cursor<Vec<u8>>>) -> Seq<
    Option<Seq<char>>,
>;

/// The bytes of each entry that can be read, by the name it is found under.
pub uninterp spec fn entry_bytes(archive: zip::ZipArchive<std::io::Cursor<Vec<u8>>>) -> Map<
    Seq<char>,
    Seq<u8>,
>;

/// The entry names of the zip file that a byte buffer holds, or `None`
/// where the buffer is no well-formed zip file.
pub uninterp spec fn zip_directory(bytes: Seq<u8>) -> Option<Seq<Option<Seq<char>>>>;

/// Calls `ZipArchive::new` on a cursor over the buffer. It succeeds exactly
/// on well-formed zip files, and then holds the entries of the file's
/// central directory.
#[verifier::external_body]
fn open_archive(data: Vec<u8>) -> (r: Result<
    zip::ZipArchive<std::io::Cursor<Vec<u8>>>,
    zip::result::ZipError,
>)
    ensures
        match r {
            Ok(archive) => zip_directory(data@) == Some(entry_names(archive)),
            Err(_) => zip_directory(data@) is None,
        },
{
    zip::ZipArchive::new(std::io::Cursor::new(data))
}

/// Calls `ZipArchive::len`: the number of entries.
#[verifier::external_body]
fn entry_count(archive: &zip::ZipArchive<std::io::Cursor<Vec<u8>>>) -> (count: usize)
    ensures
        count == entry_names(*archive).len(),
{
    archive.len()
}

/// Calls `ZipArchive::name_for_index`: the name of the entry at `index`,
/// if there is such an entry and its name can be decoded.
#[verifier::external_body]
fn entry_name(archive: &zip::ZipArchive<std::io::Cursor<Vec<u8>>>, index: usize) -> (name: Option<
    String,
>)
    ensures
        index >= entry_names(*archive).len() ==> name is None,
        index < entry_names(*archive).len() ==> match entry_names(*archive)[index as int] {
            Some(decoded) => name matches Some(text) && text@ == decoded,
            None => name is None,
        },
{
    match archive.name_for_index(index) {
        Some(Ok(name)) => Some(name.into_owned()),
        _ => None,
    }
}

/// Calls `ZipArchive::by_name`, then `std::io::copy` from the entry into a
/// buffer. Reading leaves the archive's entries as they are. A failure to
/// find or open the entry is a `Zip` error, a failure while its bytes are
/// read an `Io` error.
#[verifier::external_body]
fn read_by_name(archive: &mut zip::ZipArchive<std::io::Cursor<Vec<u8>>>, name: &str) -> (r: Result<
    Vec<u8>,
    CbzError,
>)
    ensures
        entry_names(*final(archive)) == entry_names(*old(archive)),
        entry_bytes(*final(archive)) == entry_bytes(*old(archive)),
        match r {
            Ok(data) => entry_bytes(*old(archive)).dom().contains(name@) && entry_bytes(
                *old(archive),
            )[name@] == data@,
            Err(e) => !entry_bytes(*old(archive)).dom().contains(name@) && (e == CbzError::Zip
                || e == CbzError::Io),
        },
{
    match archive.by_name(name) {
        Ok(mut file) => {
            let mut buffer = Vec::new();
            match std::io::copy(&mut file, &mut buffer) {
                Ok(_) => Ok(buffer),
                Err(_) => Err(CbzError::Io),
            }
        },
        Err(_) => Err(CbzError::Zip),
    }
}

/// The image formats that can be told from the first bytes of a file.
#[derive(Debug, Clone, Copy, PartialEq, Eq, Structural)]
pub enum ImageFormat {
    Jpeg,
    Png,
    Gif,
    WebP,
    Bmp,
    Unknown,
}

/// The media type of each format.
pub open spec fn media_type(format: ImageFormat) -> Seq<char> {
    match format {
        ImageFormat::Jpeg => "image/jpeg"@,
        ImageFormat::Png => "image/png"@,
        ImageFormat::Gif => "image/gif"@,
        ImageFormat::WebP => "image/webp"@,
        ImageFormat::Bmp => "image/bmp"@,
        ImageFormat::Unknown => "application/octet-stream"@,
    }
}

impl ImageFormat {
    /// The format's media type.
    pub fn as_str(&self) -> (text: &'static str)
        ensures
            text@ == media_type(*self),
    {
        match self {
            ImageFormat::Jpeg => "image/jpeg",
            ImageFormat::Png => "image/png",
            ImageFormat::Gif => "image/gif",
            ImageFormat::WebP => "image/webp",
            ImageFormat::Bmp => "image/bmp",
            ImageFormat::Unknown => "application/octet-stream",
        }
    }

    /// The format's media type, as an owned string.
    pub fn to_string(&self) -> (text: String)
        ensures
            text@ == media_type(*self),
    {
        self.as_str().to_owned()
    }
}

/// Whether `data` begins with the `signature.len()` bytes of `signature`.
pub open spec fn begins_with(data: Seq<u8>, signature: Seq<u8>) -> bool {
    data.len() >= signature.len() && data.take(signature.len() as int) == signature
}

/// The format that the first bytes of `data` tell, for data of four bytes
/// or more: the first signature that fits, in the order JPEG, PNG, GIF,
/// WebP (a RIFF container whose form type is `WEBP`), BMP.
pub open spec fn format_of(data: Seq<u8>) -> ImageFormat {
    if begins_with(data, seq![0xFFu8, 0xD8u8]) {
        ImageFormat::Jpeg
    } else if begins_with(data, seq![0x89u8, 0x50u8, 0x4Eu8, 0x47u8]) {
        ImageFormat::Png
    } else if begins_with(data, seq![0x47u8, 0x49u8, 0x46u8, 0x38u8]) {
        ImageFormat::Gif
    } else if begins_with(data, seq![0x52u8, 0x49u8, 0x46u8, 0x46u8]) && data.len() >= 12
        && data.subrange(8, 12) == seq![0x57u8, 0x45u8, 0x42u8, 0x50u8] {
        ImageFormat::WebP
    } else if begins_with(data, seq![0x42u8, 0x4Du8]) {
        ImageFormat::Bmp
    } else {
        ImageFormat::Unknown
    }
}

/// Tells an image's format from its first bytes. Data of fewer than four
/// bytes is rejected.
pub fn detect_image_format(data: &[u8]) -> (r: Result<ImageFormat, CbzError>)
    ensures
        data@.len() < 4 ==> r == Err::<ImageFormat, CbzError>(CbzError::InvalidImageFormat),
        data@.len() >= 4 ==> r == Ok::<ImageFormat, CbzError>(format_of(data@)),
{
    if data.len() < 4 {
        return Err(CbzError::InvalidImageFormat);
    }
    proof {
        lemma_begins_with_two(data@, 0xFF, 0xD8);
        lemma_begins_with_two(data@, 0x42, 0x4D);
        lemma_begins_with_four(data@, 0x89, 0x50, 0x4E, 0x47);
        lemma_begins_with_four(data@, 0x47, 0x49, 0x46, 0x38);
        lemma_begins_with_four(data@, 0x52, 0x49, 0x46, 0x46);
    }
    if data[0] == 0xFF && data[1] == 0xD8 {
        return Ok(ImageFormat::Jpeg);
    }
    if data[0] == 0x89 && data[1] == 0x50 && data[2] == 0x4E && data[3] == 0x47 {
        return Ok(ImageFormat::Png);
    }
    if data[0] == 0x47 && data[1] == 0x49 && data[2] == 0x46 && data[3] == 0x38 {
        return Ok(ImageFormat::Gif);
    }
    if data[0] == 0x52 && data[1] == 0x49 && data[2] == 0x46 && data[3] == 0x46 && data.len() >= 12
        && data[8] == 0x57 && data[9] == 0x45 && data[10] == 0x42 && data[11] == 0x50 {
        assert(data@.subrange(8, 12) =~= seq![0x57u8, 0x45u8, 0x42u8, 0x50u8]);
        return Ok(ImageFormat::WebP);
    }
    proof {
        if data.len() >= 12 {
            let form = data@.subrange(8, 12);
            assert(form[0] == data[8] && form[1] == data[9] && form[2] == data[10] && form[3]
                == data[11]);
        }
    }
    if data[0] == 0x42 && data[1] == 0x4D {
        return Ok(ImageFormat::Bmp);
    }
    Ok(ImageFormat::Unknown)
}

proof fn lemma_begins_with_two(data: Seq<u8>, a: u8, b: u8)
    requires
        data.len() >= 2,
    ensures
        begins_with(data, seq![a, b]) <==> data[0] == a && data[1] == b,
{
    let head = data.take(2);
    assert(head[0] == data[0] && head[1] == data[1]);
    if data[0] == a && data[1] == b {
        assert(head =~= seq![a, b]);
    }
}

proof fn lemma_begins_with_four(data: Seq<u8>, a: u8, b: u8, c: u8, d: u8)
    requires
        data.len() >= 4,
    ensures
        begins_with(data, seq![a, b, c, d]) <==> data[0] == a && data[1] == b && data[2] == c
            && data[3] == d,
{
    let head = data.take(4);
    assert(head[0] == data[0] && head[1] == data[1] && head[2] == data[2] && head[3] == data[3]);
    if data[0] == a && data[1] == b && data[2] == c && data[3] == d {
        assert(head =~= seq![a, b, c, d]);
    }
}

/// An image taken out of an archive.
#[derive(Debug)]
pub struct ImageEntry {
    pub name: String,
    pub data: Vec<u8>,
    pub format: ImageFormat,
}

impl ImageEntry {
    /// The media type of the image's format.
    pub fn mime_type(&self) -> (text: &'static str)
        ensures
            text@ == media_type(self.format),
    {
        self.format.as_str()
    }
}

/// The ASCII lower-case form of a character.
pub open spec fn lower(c: char) -> char {
    if 'A' <= c <= 'Z' {
        ((c as u8) + 32) as char
    } else {
        c
    }
}

/// Whether `name` ends with `extension`, upper and lower case taken as the
/// same. `extension` is in lower case.
pub open spec fn has_extension(name: Seq<char>, extension: Seq<char>) -> bool {
    name.len() >= extension.len() && name.skip(name.len() - extension.len()).map_values(
        |c: char| lower(c),
    ) == extension
}

/// Whether an entry of this name is taken for an image.
pub open spec fn is_image_name(name: Seq<char>) -> bool {
    ||| has_extension(name, ".jpg"@)
    ||| has_extension(name, ".jpeg"@)
    ||| has_extension(name, ".png"@)
    ||| has_extension(name, ".gif"@)
    ||| has_extension(name, ".webp"@)
    ||| has_extension(name, ".bmp"@)
}

/// The names that can be decoded, in order.
pub open spec fn decoded(names: Seq<Option<Seq<char>>>) -> Seq<Seq<char>>
    decreases names.len(),
{
    if names.len() == 0 {
        Seq::empty()
    } else {
        match names.last() {
            Some(name) => decoded(names.drop_last()).push(name),
            None => decoded(names.drop_last()),
        }
    }
}

/// The names among `names` that are taken for images, in order.
pub open spec fn images_among(names: Seq<Seq<char>>) -> Seq<Seq<char>>
    decreases names.len(),
{
    if names.len() == 0 {
        Seq::empty()
    } else if is_image_name(names.last()) {
        images_among(names.drop_last()).push(names.last())
    } else {
        images_among(names.drop_last())
    }
}

/// The names among `names` under which `contents` holds an image that can
/// be read and is long enough to tell its format, in order.
pub open spec fn readable_among(names: Seq<Seq<char>>, contents: Map<Seq<char>, Seq<u8>>) -> Seq<
    Seq<char>,
>
    decreases names.len(),
{
    if names.len() == 0 {
        Seq::empty()
    } else if contents.dom().contains(names.last()) && contents[names.last()].len() >= 4 {
        readable_among(names.drop_last(), contents).push(names.last())
    } else {
        readable_among(names.drop_last(), contents)
    }
}

/// The texts of a list of strings.
pub open spec fn texts(strings: Seq<String>) -> Seq<Seq<char>> {
    strings.map_values(|s: String| s@)
}

fn to_lower(c: char) -> (r: char)
    ensures
        r == lower(c),
{
    if 'A' <= c && c <= 'Z' {
        ((c as u8) + 32) as char
    } else {
        c
    }
}

fn ends_with(name: &Vec<char>, extension: &str) -> (r: bool)
    ensures
        r == has_extension(name@, extension@),
{
    let ext = chars_of(extension);
    if name.len() < ext.len() {
        return false;
    }
    let start: usize = name.len() - ext.len();
    let ghost tail = name@.skip(start as int).map_values(|c: char| lower(c));
    let mut i: usize = 0;
    while i < ext.len()
        invariant
            i <= ext.len(),
            start + ext.len() == name.len(),
            ext@ == extension@,
            tail == name@.skip(start as int).map_values(|c: char| lower(c)),
            forall|j: int| 0 <= j < i ==> tail[j] == ext[j],
        decreases ext.len() - i,
    {
        if to_lower(name[start + i]) != ext[i] {
            assert(tail[i as int] != extension@[i as int]);
            return false;
        }
        i = i + 1;
    }
    assert(tail =~= ext@);
    true
}

/// Whether an entry of this name is taken for an image: whether it ends,
/// in whatever case, with one of `.jpg`, `.jpeg`, `.png`, `.gif`, `.webp`,
/// `.bmp`.
pub fn image_name(name: &str) -> (r: bool)
    ensures
        r == is_image_name(name@),
{
    let chars = chars_of(name);
    ends_with(&chars, ".jpg") || ends_with(&chars, ".jpeg") || ends_with(&chars, ".png")
        || ends_with(&chars, ".gif") || ends_with(&chars, ".webp") || ends_with(&chars, ".bmp")
}

/// A comic book archive held in memory.
pub struct CbzArchive {
    archive: zip::ZipArchive<std::io::Cursor<Vec<u8>>>,
}

impl CbzArchive {
    /// The names of the entries, in the order of the archive's directory;
    /// `None` stands for an entry whose name cannot be decoded.
    pub closed spec fn names(&self) -> Seq<Option<Seq<char>>> {
        entry_names(self.archive)
    }

    /// The bytes of each entry that can be read, by name.
    pub closed spec fn contents(&self) -> Map<Seq<char>, Seq<u8>> {
        entry_bytes(self.archive)
    }

    /// Opens the archive that `data` holds. Fails with `CbzError::Zip`
    /// exactly when `data` is no well-formed zip file.
    pub fn from_bytes(data: Vec<u8>) -> (r: Result<Self, CbzError>)
        ensures
            match r {
                Ok(archive) => zip_directory(data@) == Some(archive.names()),
                Err(e) => zip_directory(data@) is None && e == CbzError::Zip,
            },
    {
        match open_archive(data) {
            Ok(archive) => Ok(CbzArchive { archive }),
            Err(_) => Err(CbzError::Zip),
        }
    }

    /// The number of entries.
    pub fn len(&self) -> (count: usize)
        ensures
            count == self.names().len(),
    {
        entry_count(&self.archive)
    }

    /// Whether the archive has no entries.
    pub fn is_empty(&self) -> (empty: bool)
        ensures
            empty == (self.names().len() == 0),
    {
        entry_count(&self.archive) == 0
    }

    /// The names of the entries, in order, without those that cannot be
    /// decoded.
    pub fn file_names(&self) -> (names: Vec<String>)
        ensures
            texts(names@) == decoded(self.names()),
    {
        let count = entry_count(&self.archive);
        let mut names: Vec<String> = Vec::new();
        let mut i: usize = 0;
        assert(self.names().take(0) == Seq::<Option<Seq<char>>>::empty());
        assert(texts(names@) =~= Seq::<Seq<char>>::empty());
        while i < count
            invariant
                i <= count,
                count == self.names().len(),
                texts(names@) == decoded(self.names().take(i as int)),
            decreases count - i,
        {
            proof {
                assert(self.names().take(i + 1).drop_last() == self.names().take(i as int));
            }
            let ghost before = names@;
            match entry_name(&self.archive, i) {
                Some(name) => {
                    names.push(name);
                    assert(texts(names@) =~= texts(before).push(name@));
                },
                None => {},
            }
            i = i + 1;
        }
        assert(self.names().take(count as int) == self.names());
        names
    }

    /// The names of the entries that are taken for images, in order.
    pub fn image_names(&self) -> (names: Vec<String>)
        ensures
            texts(names@) == images_among(decoded(self.names())),
    {
        let all = self.file_names();
        let mut names: Vec<String> = Vec::new();
        let mut i: usize = 0;
        assert(texts(all@).take(0) == Seq::<Seq<char>>::empty());
        assert(texts(names@) =~= Seq::<Seq<char>>::empty());
        while i < all.len()
            invariant
                i <= all.len(),
                texts(names@) == images_among(texts(all@).take(i as int)),
            decreases all.len() - i,
        {
            proof {
                assert(texts(all@).take(i + 1).drop_last() == texts(all@).take(i as int));
                assert(texts(all@).take(i + 1).last() == all[i as int]@);
            }
            let ghost before = names@;
            if image_name(all[i].as_str()) {
                let name = all[i].clone();
                names.push(name);
                assert(texts(names@) =~= texts(before).push(all[i as int]@));
            }
            i = i + 1;
        }
        assert(texts(all@).take(all.len() as int) == texts(all@));
        names
    }

    /// The bytes of the entry `name`. Reading changes nothing in the
    /// archive.
    pub fn read_entry(&mut self, name: &str) -> (r: Result<Vec<u8>, CbzError>)
        ensures
            final(self).names() == old(self).names(),
            final(self).contents() == old(self).contents(),
            match r {
                Ok(data) => {
                    &&& old(self).contents().dom().contains(name@)
                    &&& old(self).contents()[name@] == data@
                },
                Err(e) => !old(self).contents().dom().contains(name@) && (e == CbzError::Zip || e
                    == CbzError::Io),
            },
    {
        read_by_name(&mut self.archive, name)
    }

    /// The image stored under `name`, with the format that its first bytes
    /// tell.
    pub fn read_image(&mut self, name: &str) -> (r: Result<ImageEntry, CbzError>)
        ensures
            final(self).names() == old(self).names(),
            final(self).contents() == old(self).contents(),
            match r {
                Ok(image) => {
                    &&& old(self).contents().dom().contains(name@)
                    &&& image.name@ == name@
                    &&& image.data@ == old(self).contents()[name@]
                    &&& image.data@.len() >= 4
                    &&& image.format == format_of(image.data@)
                },
                Err(e) => if old(self).contents().dom().contains(name@) {
                    old(self).contents()[name@].len() < 4 && e == CbzError::InvalidImageFormat
                } else {
                    e == CbzError::Zip || e == CbzError::Io
                },
            },
    {
        let data = self.read_entry(name)?;
        let format = detect_image_format(data.as_slice())?;
        Ok(ImageEntry { name: name.to_owned(), data, format })
    }
}

impl CbzArchive {
    /// Every image of the archive that can be read, in the order of the
    /// directory. Entries that cannot be read, or are too short to tell
    /// their format, are left out.
    pub fn iter_images(&mut self) -> (images: Vec<Result<ImageEntry, CbzError>>)
        ensures
            final(self).names() == old(self).names(),
            final(self).contents() == old(self).contents(),
            images.len() == readable_among(
                images_among(decoded(old(self).names())),
                old(self).contents(),
            ).len(),
            forall|i: int|
                0 <= i < images.len() ==> {
                    &&& (#[trigger] images[i]) matches Ok(image)
                    &&& image.name@ == readable_among(
                        images_among(decoded(old(self).names())),
                        old(self).contents(),
                    )[i]
                    &&& image.data@ == old(self).contents()[image.name@]
                    &&& image.format == format_of(image.data@)
                },
    {
        let names = self.image_names();
        let ghost wanted = texts(names@);
        let ghost contents = self.contents();
        let mut images: Vec<Result<ImageEntry, CbzError>> = Vec::new();
        let mut i: usize = 0;
        assert(wanted.take(0) == Seq::<Seq<char>>::empty());
        while i < names.len()
            invariant
                i <= names.len(),
                wanted == texts(names@),
                self.names() == old(self).names(),
                self.contents() == contents,
                contents == old(self).contents(),
                images.len() == readable_among(wanted.take(i as int), contents).len(),
                forall|k: int|
                    0 <= k < images.len() ==> {
                        &&& (#[trigger] images[k]) matches Ok(image)
                        &&& image.name@ == readable_among(wanted.take(i as int), contents)[k]
                        &&& image.data@ == contents[image.name@]
                        &&& image.format == format_of(image.data@)
                    },
            decreases names.len() - i,
        {
            proof {
                assert(wanted.take(i + 1).drop_last() == wanted.take(i as int));
                assert(wanted.take(i + 1).last() == names[i as int]@);
            }
            match self.read_image(names[i].as_str()) {
                Ok(image) => {
                    images.push(Ok(image));
                },
                Err(_) => {},
            }
            i = i + 1;
        }
        assert(wanted.take(names.len() as int) == wanted);
        images
    }
}

/// Goes through the images of an archive one at a time.
pub struct ImageStream {
    archive: CbzArchive,
    names: Vec<String>,
    index: usize,
}

impl ImageStream {
    /// The archive that the stream reads from.
    pub closed spec fn archive(&self) -> CbzArchive {
        self.archive
    }

    /// The names of the images that the stream has not got to yet.
    pub closed spec fn remaining(&self) -> Seq<Seq<char>> {
        if self.index <= self.names.len() {
            texts(self.names@).skip(self.index as int)
        } else {
            Seq::empty()
        }
    }

    /// A stream over all images of `archive`, in the order of its
    /// directory.
    pub fn new(archive: CbzArchive) -> (stream: Self)
        ensures
            stream.archive() == archive,
            stream.remaining() == images_among(decoded(archive.names())),
    {
        let names = archive.image_names();
        assert(texts(names@).skip(0) == texts(names@));
        ImageStream { archive, names, index: 0 }
    }

    /// Reads the next image, or gives `None` when all have been gone
    /// through. An image that cannot be read is gone past with its error.
    pub fn next(&mut self) -> (r: Option<Result<ImageEntry, CbzError>>)
        ensures
            final(self).archive().names() == old(self).archive().names(),
            final(self).archive().contents() == old(self).archive().contents(),
            old(self).remaining().len() == 0 ==> r is None && final(self).remaining()
                == old(self).remaining(),
            old(self).remaining().len() > 0 ==> {
                &&& final(self).remaining() == old(self).remaining().drop_first()
                &&& r matches Some(outcome)
                &&& match outcome {
                    Ok(image) => {
                        &&& image.name@ == old(self).remaining()[0]
                        &&& old(self).archive().contents().dom().contains(image.name@)
                        &&& image.data@ == old(self).archive().contents()[image.name@]
                        &&& image.format == format_of(image.data@)
                    },
                    Err(e) => !old(self).archive().contents().dom().contains(
                        old(self).remaining()[0],
                    ) || old(self).archive().contents()[old(self).remaining()[0]].len() < 4,
                }
            },
    {
        if self.index >= self.names.len() {
            return None;
        }
        let outcome = self.archive.read_image(self.names[self.index].as_str());
        assert(texts(self.names@).skip(self.index as int)[0] == self.names[self.index as int]@);
        assert(texts(self.names@).skip(self.index as int).drop_first() == texts(self.names@).skip(
            self.index + 1,
        ));
        self.index = self.index + 1;
        Some(outcome)
    }
}

} // verus!
