//! The weight store: named tensors read out of a serialized archive.

use vstd::prelude::*;
use vstd::slice::slice_subrange;
use crate::error::{Error, Fault};
use crate::ieee::{le_u16, le_u32, widen_half, widened_half};
use crate::tensor::{agrees, constant, dims2, refitted, shaped, Tensor, TensorSpec};

verus! {

/// Makes `safetensors::SafeTensors` known: a parsed archive over a borrowed
/// buffer. Nothing is claimed of what is in it.
#[verifier::external_type_specification]
#[verifier::external_body]
pub struct ExSafeTensors<'a>(safetensors::SafeTensors<'a>);

/// Makes `safetensors::SafeTensorError` known. Nothing is claimed of what
/// is in it.
#[verifier::external_type_specification]
#[verifier::external_body]
pub struct ExSafeTensorError(safetensors::SafeTensorError);

/// Element type of a stored tensor.
#[derive(Debug, Clone, Copy, PartialEq, Eq, Structural)]
pub enum Dtype {
    /// 32-bit floating point.
    Single,
    /// 16-bit floating point.
    Half,
    /// Anything else.
    Other,
}

/// What an archive holds: for each tensor name the element type and the
/// tensor's bytes.
pub type Contents = Map<Seq<char>, (Dtype, Seq<u8>)>;

/// The tensors of a parsed archive, by name.
pub uninterp spec fn stored_tensors(archive: safetensors::SafeTensors<'_>) -> Contents;

/// What parsing makes of a byte buffer: the tensors of the archive, or
/// `None` where the buffer is no well-formed archive.
pub uninterp spec fn parsed_archive(bytes: Seq<u8>) -> Option<Contents>;

/// The number of data bytes that a header declares: where the last of its
/// tensors ends. `None` where the bytes are no header.
pub uninterp spec fn declared_data_len(header: Seq<u8>) -> Option<usize>;

/// The greatest length of a header.
pub const MAX_HEADER_SIZE: usize = 100_000_000;

/// Little-endian assembly of the first eight bytes.
pub open spec fn le_u64(bytes: Seq<u8>) -> int {
    bytes[0] as int + 0x100 * (bytes[1] as int) + 0x1_0000 * (bytes[2] as int) + 0x100_0000 * (
    bytes[3] as int) + 0x1_0000_0000 * (bytes[4] as int) + 0x100_0000_0000 * (bytes[5] as int)
        + 0x1_0000_0000_0000 * (bytes[6] as int) + 0x100_0000_0000_0000 * (bytes[7] as int)
}

/// Whether a buffer is framed as an archive: eight bytes that give the
/// length of the header, a header of that length, and as many data bytes as
/// the header declares, to the end of the buffer.
pub open spec fn framed(bytes: Seq<u8>) -> bool {
    &&& bytes.len() >= 8
    &&& le_u64(bytes) <= MAX_HEADER_SIZE
    &&& 8 + le_u64(bytes) <= bytes.len()
    &&& declared_data_len(bytes.subrange(8, 8 + le_u64(bytes))) matches Some(data_len)
    &&& 8 + le_u64(bytes) + data_len == bytes.len()
}

/// The tensors of the archive that a buffer holds, or `None` where the
/// buffer is not framed as an archive or its parts are not well-formed.
pub open spec fn archive_of(bytes: Seq<u8>) -> Option<Contents> {
    if framed(bytes) {
        parsed_archive(bytes)
    } else {
        None
    }
}

/// Calls `serde_json::from_slice` for a `safetensors::tensor::Metadata`,
/// which reads and validates a header, then `Metadata::data_len`.
#[verifier::external_body]
fn header_data_len(header: &[u8]) -> (r: Option<usize>)
    ensures
        r == declared_data_len(header@),
{
    match serde_json::from_slice::<safetensors::tensor::Metadata>(header) {
        Ok(metadata) => Some(metadata.data_len()),
        Err(_) => None,
    }
}

/// Calls `SafeTensors::deserialize`. It succeeds exactly on the buffers that
/// are well-formed archives, and then holds the tensors that the header
/// describes. It is called on framed buffers only: on others it may add
/// lengths that do not fit in `usize`.
#[verifier::external_body]
fn deserialize<'a>(bytes: &'a [u8]) -> (r: Result<
    safetensors::SafeTensors<'a>,
    safetensors::SafeTensorError,
>)
    requires
        framed(bytes@),
    ensures
        match r {
            Ok(archive) => parsed_archive(bytes@) == Some(stored_tensors(archive)),
            Err(_) => parsed_archive(bytes@) is None,
        },
{
    safetensors::SafeTensors::deserialize(bytes)
}

/// Calls `SafeTensors::tensor`, then `TensorView::dtype` and
/// `TensorView::data` on what it found. A tensor is found exactly when the
/// archive holds the name.
#[verifier::external_body]
fn find_tensor<'a>(archive: &safetensors::SafeTensors<'a>, name: &str) -> (r: Option<
    (Dtype, &'a [u8]),
>)
    ensures
        r is Some <==> stored_tensors(*archive).dom().contains(name@),
        r matches Some((dtype, data)) ==> stored_tensors(*archive)[name@] == (dtype, data@),
{
    match archive.tensor(name) {
        Ok(view) => {
            let dtype = match view.dtype() {
                safetensors::Dtype::F32 => Dtype::Single,
                safetensors::Dtype::F16 => Dtype::Half,
                _ => Dtype::Other,
            };
            Some((dtype, view.data()))
        },
        Err(_) => None,
    }
}

/// Calls `SafeTensors::names`. Every name of the archive comes once, in no
/// particular order.
#[verifier::external_body]
fn tensor_names(archive: &safetensors::SafeTensors<'_>) -> (names: Vec<String>)
    ensures
        forall|i: int, j: int|
            0 <= i < j < names.len() ==> (#[trigger] names[i])@ != (#[trigger] names[j])@,
        forall|i: int|
            0 <= i < names.len() ==> stored_tensors(*archive).dom().contains(
                (#[trigger] names[i])@,
            ),
        forall|name: Seq<char>| #[trigger]
            stored_tensors(*archive).dom().contains(name) ==> exists|i: int|
                0 <= i < names.len() && (#[trigger] names[i])@ == name,
{
    archive.names().into_iter().map(String::from).collect()
}

/// The values of a tensor of 32-bit elements: each group of four bytes,
/// little-endian; bytes beyond the last full group are left out.
pub open spec fn single_values(bytes: Seq<u8>) -> Seq<u32> {
    Seq::new(
        bytes.len() / 4,
        |i: int|
            le_u32(bytes[4 * i], bytes[4 * i + 1], bytes[4 * i + 2], bytes[4 * i + 3]) as u32,
    )
}

/// The values of a tensor of 16-bit elements, each widened to 32 bits.
pub open spec fn half_values(bytes: Seq<u8>) -> Seq<u32> {
    Seq::new(
        bytes.len() / 2,
        |i: int| widened_half(le_u16(bytes[2 * i], bytes[2 * i + 1]) as u16) as u32,
    )
}

/// What a lookup of `name` in `contents` gives.
pub open spec fn lookup(contents: Contents, name: Seq<char>) -> Result<Seq<u32>, Fault> {
    if !contents.dom().contains(name) {
        Err(Fault::NotFound(name))
    } else {
        match contents[name].0 {
            Dtype::Single => Ok(single_values(contents[name].1)),
            Dtype::Half => Ok(half_values(contents[name].1)),
            Dtype::Other => Err(Fault::Format),
        }
    }
}

/// A tensor that a model cannot do without: the stored values, which must
/// fit `shape`. A missing or unreadable tensor is an error.
pub open spec fn stored(contents: Contents, name: Seq<char>, shape: Seq<usize>) -> Result<
    TensorSpec,
    Fault,
> {
    match lookup(contents, name) {
        Ok(values) => shaped(values, shape),
        Err(e) => Err(e),
    }
}

/// A tensor with a default: the stored values, which must fit `shape`, or
/// `fill` throughout where the archive gives no values under `name`.
pub open spec fn stored_or(contents: Contents, name: Seq<char>, shape: Seq<usize>, fill: u32)
    -> Result<TensorSpec, Fault> {
    match lookup(contents, name) {
        Ok(values) => shaped(values, shape),
        Err(_) => constant(shape, fill),
    }
}

/// A tensor with a default that takes what is stored as far as it goes: the
/// stored values cut or padded with `fill` to `shape`, or `fill` throughout
/// where the archive gives no values under `name`.
pub open spec fn fitted_or(contents: Contents, name: Seq<char>, shape: Seq<usize>, fill: u32)
    -> Result<TensorSpec, Fault> {
    match lookup(contents, name) {
        Ok(values) => refitted(values, shape, fill),
        Err(_) => constant(shape, fill),
    }
}

/// A tensor that may be absent: the stored values, which must fit `shape`.
pub open spec fn stored_if_present(contents: Contents, name: Seq<char>, shape: Seq<usize>)
    -> Result<Option<TensorSpec>, Fault> {
    match lookup(contents, name) {
        Ok(values) => match shaped(values, shape) {
            Ok(t) => Ok(Some(t)),
            Err(e) => Err(e),
        },
        Err(_) => Ok(None),
    }
}

/// A tensor that may be absent: the stored values cut or padded with `fill`
/// to `shape`.
pub open spec fn fitted_if_present(
    contents: Contents,
    name: Seq<char>,
    shape: Seq<usize>,
    fill: u32,
) -> Result<Option<TensorSpec>, Fault> {
    match lookup(contents, name) {
        Ok(values) => match refitted(values, shape, fill) {
            Ok(t) => Ok(Some(t)),
            Err(e) => Err(e),
        },
        Err(_) => Ok(None),
    }
}

/// A table of rows of `width` elements: as many rows as the stored values
/// fill, or `rows` rows of zeros where the archive gives no values under
/// `name`. A table without columns cannot be read.
pub open spec fn stored_rows(contents: Contents, name: Seq<char>, width: usize, rows: usize)
    -> Result<TensorSpec, Fault> {
    match lookup(contents, name) {
        Ok(values) => if width == 0 {
            Err(Fault::Shape)
        } else {
            shaped(values, seq![(values.len() / width as nat) as usize, width])
        },
        Err(_) => constant(seq![rows, width], crate::ieee::ZERO),
    }
}

/// A table of rows of `width` elements that may be absent: as many rows as
/// the stored values fill.
pub open spec fn stored_rows_if_present(contents: Contents, name: Seq<char>, width: usize)
    -> Result<Option<TensorSpec>, Fault> {
    match lookup(contents, name) {
        Ok(values) => if width == 0 {
            Err(Fault::Shape)
        } else {
            match shaped(values, seq![(values.len() / width as nat) as usize, width]) {
                Ok(t) => Ok(Some(t)),
                Err(e) => Err(e),
            }
        },
        Err(_) => Ok(None),
    }
}

/// Whether the exec result `r` is what the spec result `expected` describes.
pub open spec fn agrees_if_present(
    r: Result<Option<Tensor>, Error>,
    expected: Result<Option<TensorSpec>, Fault>,
) -> bool {
    match expected {
        Ok(Some(t)) => r matches Ok(Some(x)) && x@ == t,
        Ok(None) => r matches Ok(None),
        Err(e) => r matches Err(f) && f@ == e,
    }
}

/// A parsed weight archive. It borrows the buffer it was parsed from, and
/// copies a tensor's bytes only when the tensor is asked for.
pub struct WeightedTokens<'a> {
    tensors: safetensors::SafeTensors<'a>,
}

impl<'a> View for WeightedTokens<'a> {
    type V = Contents;

    closed spec fn view(&self) -> Contents {
        stored_tensors(self.tensors)
    }
}

impl<'a> WeightedTokens<'a> {
    /// Parses an archive. Fails with `Error::Format` exactly when the buffer
    /// is no well-formed archive. The framing is looked at before the buffer
    /// is parsed: the length of the header, and that the data bytes that
    /// the header declares are what follows it.
    pub fn load_safetensors_from_bytes(data: &'a [u8]) -> (r: Result<Self, Error>)
        ensures
            match r {
                Ok(store) => archive_of(data@) == Some(store@),
                Err(e) => archive_of(data@) is None && e == Error::Format,
            },
    {
        if data.len() < 8 {
            return Err(Error::Format);
        }
        let declared: u64 = (data[0] as u64) + 0x100 * (data[1] as u64) + 0x1_0000 * (
        data[2] as u64) + 0x100_0000 * (data[3] as u64) + 0x1_0000_0000 * (data[4] as u64)
            + 0x100_0000_0000 * (data[5] as u64) + 0x1_0000_0000_0000 * (data[6] as u64)
            + 0x100_0000_0000_0000 * (data[7] as u64);
        if declared > 100_000_000 {
            return Err(Error::Format);
        }
        let header_len: usize = declared as usize;
        if header_len > data.len() - 8 {
            return Err(Error::Format);
        }
        let header = slice_subrange(data, 8, 8 + header_len);
        let data_len = match header_data_len(header) {
            Some(data_len) => data_len,
            None => {
                return Err(Error::Format);
            },
        };
        if data_len != data.len() - 8 - header_len {
            return Err(Error::Format);
        }
        match deserialize(data) {
            Ok(tensors) => Ok(WeightedTokens { tensors }),
            Err(_) => Err(Error::Format),
        }
    }

    /// The values of the tensor `name`, as single-precision bit patterns.
    /// Fails with `Error::NotFound` where the archive has no such tensor, and
    /// with `Error::Format` where its elements are neither 32-bit nor 16-bit
    /// floating point.
    pub fn get_float_tensor(&self, name: &str) -> (r: Result<Vec<u32>, Error>)
        ensures
            match lookup(self@, name@) {
                Ok(values) => r matches Ok(v) && v@ == values,
                Err(e) => r matches Err(f) && f@ == e,
            },
    {
        match find_tensor(&self.tensors, name) {
            None => Err(Error::NotFound(name.to_owned())),
            Some((Dtype::Single, data)) => Ok(decode_single(data)),
            Some((Dtype::Half, data)) => Ok(decode_half(data)),
            Some((Dtype::Other, _)) => Err(Error::Format),
        }
    }

    /// The tensor `name`, which must be there and fit `shape`.
    pub fn tensor(&self, name: &str, shape: Vec<usize>) -> (r: Result<Tensor, Error>)
        ensures
            agrees(r, stored(self@, name@, shape@)),
    {
        match self.get_float_tensor(name) {
            Ok(values) => Tensor::from_data(values, shape),
            Err(e) => Err(e),
        }
    }

    /// The tensor `name`, which must fit `shape` if it can be read, and is
    /// `fill` throughout if not.
    pub fn tensor_or(&self, name: &str, shape: Vec<usize>, fill: u32) -> (r: Result<Tensor, Error>)
        ensures
            agrees(r, stored_or(self@, name@, shape@, fill)),
    {
        match self.get_float_tensor(name) {
            Ok(values) => Tensor::from_data(values, shape),
            Err(_) => Tensor::filled(shape, fill),
        }
    }

    /// The tensor `name` cut or padded with `fill` to `shape`, or `fill`
    /// throughout if it cannot be read.
    pub fn tensor_fitted(&self, name: &str, shape: Vec<usize>, fill: u32) -> (r: Result<
        Tensor,
        Error,
    >)
        ensures
            agrees(r, fitted_or(self@, name@, shape@, fill)),
    {
        match self.get_float_tensor(name) {
            Ok(values) => Tensor::fit(&values, shape, fill),
            Err(_) => Tensor::filled(shape, fill),
        }
    }

    /// The tensor `name` if it can be read; it must then fit `shape`.
    pub fn tensor_if_present(&self, name: &str, shape: Vec<usize>) -> (r: Result<
        Option<Tensor>,
        Error,
    >)
        ensures
            agrees_if_present(r, stored_if_present(self@, name@, shape@)),
    {
        match self.get_float_tensor(name) {
            Ok(values) => match Tensor::from_data(values, shape) {
                Ok(t) => Ok(Some(t)),
                Err(e) => Err(e),
            },
            Err(_) => Ok(None),
        }
    }

    /// The tensor `name` if it can be read, cut or padded with `fill` to
    /// `shape`.
    pub fn fitted_if_present(&self, name: &str, shape: Vec<usize>, fill: u32) -> (r: Result<
        Option<Tensor>,
        Error,
    >)
        ensures
            agrees_if_present(r, fitted_if_present(self@, name@, shape@, fill)),
    {
        match self.get_float_tensor(name) {
            Ok(values) => match Tensor::fit(&values, shape, fill) {
                Ok(t) => Ok(Some(t)),
                Err(e) => Err(e),
            },
            Err(_) => Ok(None),
        }
    }

    /// The table `name` of rows of `width` elements, if it can be read.
    pub fn rows_if_present(&self, name: &str, width: usize) -> (r: Result<Option<Tensor>, Error>)
        ensures
            agrees_if_present(r, stored_rows_if_present(self@, name@, width)),
    {
        match self.get_float_tensor(name) {
            Ok(values) => {
                if width == 0 {
                    Err(Error::Shape)
                } else {
                    let count: usize = values.len() / width;
                    match Tensor::from_data(values, dims2(count, width)) {
                        Ok(t) => Ok(Some(t)),
                        Err(e) => Err(e),
                    }
                }
            },
            Err(_) => Ok(None),
        }
    }

    /// The table `name` of rows of `width` elements, or `rows` rows of zeros
    /// if it cannot be read.
    pub fn tensor_rows(&self, name: &str, width: usize, rows: usize) -> (r: Result<Tensor, Error>)
        ensures
            agrees(r, stored_rows(self@, name@, width, rows)),
    {
        match self.get_float_tensor(name) {
            Ok(values) => {
                if width == 0 {
                    Err(Error::Shape)
                } else {
                    let count: usize = values.len() / width;
                    Tensor::from_data(values, dims2(count, width))
                }
            },
            Err(_) => Tensor::filled(dims2(rows, width), crate::ieee::ZERO),
        }
    }

    /// The names of all tensors, each once, in no particular order.
    pub fn list_tensors(&self) -> (names: Vec<String>)
        ensures
            forall|i: int, j: int|
                0 <= i < j < names.len() ==> (#[trigger] names[i])@ != (#[trigger] names[j])@,
            forall|i: int| 0 <= i < names.len() ==> self@.dom().contains((#[trigger] names[i])@),
            forall|name: Seq<char>| #[trigger]
                self@.dom().contains(name) ==> exists|i: int|
                    0 <= i < names.len() && (#[trigger] names[i])@ == name,
    {
        tensor_names(&self.tensors)
    }
}

/// Reads a tensor of 32-bit elements.
pub fn decode_single(data: &[u8]) -> (values: Vec<u32>)
    ensures
        values@ == single_values(data@),
{
    let count: usize = data.len() / 4;
    let mut values: Vec<u32> = Vec::with_capacity(count);
    let mut i: usize = 0;
    while i < count
        invariant
            count == data.len() / 4,
            i <= count,
            values@ == single_values(data@).take(i as int),
        decreases count - i,
    {
        let b0: u32 = data[4 * i] as u32;
        let b1: u32 = data[4 * i + 1] as u32;
        let b2: u32 = data[4 * i + 2] as u32;
        let b3: u32 = data[4 * i + 3] as u32;
        values.push(b0 + 256 * b1 + 65536 * b2 + 16777216 * b3);
        i = i + 1;
        assert(values@ == single_values(data@).take(i as int));
    }
    assert(single_values(data@).take(count as int) == single_values(data@));
    values
}

/// Reads a tensor of 16-bit elements, widening each to 32 bits.
pub fn decode_half(data: &[u8]) -> (values: Vec<u32>)
    ensures
        values@ == half_values(data@),
{
    let count: usize = data.len() / 2;
    let mut values: Vec<u32> = Vec::with_capacity(count);
    let mut i: usize = 0;
    while i < count
        invariant
            count == data.len() / 2,
            i <= count,
            values@ == half_values(data@).take(i as int),
        decreases count - i,
    {
        let b0: u16 = data[2 * i] as u16;
        let b1: u16 = data[2 * i + 1] as u16;
        values.push(widen_half(b0 + 256 * b1));
        i = i + 1;
        assert(values@ == half_values(data@).take(i as int));
    }
    assert(half_values(data@).take(count as int) == half_values(data@));
    values
}

} // verus!
