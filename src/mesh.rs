use vstd::prelude::*;

verus! {

/// The most attribute buffers a mesh holds.
pub const MAX_BUFFERS: usize = 8;

/// The size of one single-precision float, in bytes.
pub const FLOAT_BYTES: usize = 4;

/// The sizes a device call takes to upload one attribute array.
#[derive(Clone, Copy, Debug, PartialEq, Eq, Structural)]
pub struct AttributeUpload {
    /// The attribute slot, also the buffer that holds it.
    pub slot: u32,
    /// Components per vertex.
    pub width: i32,
    /// Bytes from one vertex to the next: the array is tightly packed.
    pub stride_bytes: i32,
    /// Bytes uploaded in all.
    pub byte_len: isize,
    /// Vertices in the array.
    pub vertex_count: usize,
}

/// Why an attribute array cannot be uploaded.
#[derive(Clone, Copy, Debug, PartialEq, Eq, Structural)]
pub enum UploadError {
    /// The mesh has no such buffer.
    SlotOutOfRange,
    /// A vertex has not 1 to 4 components.
    BadWidth,
    /// The array does not hold a whole number of vertices.
    Ragged,
    /// The array is too large for the device call.
    TooLarge,
}

/// Whether a mesh can be made with `buffers` attribute buffers.
pub open spec fn buffers_ok(buffers: usize) -> bool {
    1 <= buffers <= MAX_BUFFERS
}

pub fn check_buffer_count(buffers: usize) -> (r: bool)
    ensures
        r == buffers_ok(buffers),
{
    1 <= buffers && buffers <= MAX_BUFFERS
}

/// Plans the upload of `float_count` floats, `width` to a vertex and tightly
/// packed, into slot `slot` of a mesh with `buffers` buffers.
pub fn plan_attribute_upload(buffers: usize, slot: usize, width: usize, float_count: usize) -> (r: Result<
    AttributeUpload,
    UploadError,
>)
    ensures
        !(slot < buffers && buffers_ok(buffers)) ==> r == Err::<AttributeUpload, UploadError>(
            UploadError::SlotOutOfRange,
        ),
        slot < buffers && buffers_ok(buffers) && !(1 <= width <= 4) ==> r == Err::<
            AttributeUpload,
            UploadError,
        >(UploadError::BadWidth),
        slot < buffers && buffers_ok(buffers) && 1 <= width <= 4 && float_count % width != 0 ==> r
            == Err::<AttributeUpload, UploadError>(UploadError::Ragged),
        slot < buffers && buffers_ok(buffers) && 1 <= width <= 4 && float_count % width == 0 && float_count
            * FLOAT_BYTES > isize::MAX ==> r == Err::<AttributeUpload, UploadError>(UploadError::TooLarge),
        r is Ok <==> slot < buffers && buffers_ok(buffers) && 1 <= width <= 4 && float_count % width == 0
            && float_count * FLOAT_BYTES <= isize::MAX,
        r matches Ok(u) ==> {
            &&& u.slot == slot
            &&& u.width == width
            &&& u.stride_bytes == width * FLOAT_BYTES
            &&& u.byte_len == float_count * FLOAT_BYTES
            &&& u.vertex_count * width == float_count
        },
{
    if !(slot < buffers && check_buffer_count(buffers)) {
        return Err(UploadError::SlotOutOfRange);
    }
    if width < 1 || width > 4 {
        return Err(UploadError::BadWidth);
    }
    if float_count % width != 0 {
        return Err(UploadError::Ragged);
    }
    if float_count > (isize::MAX as usize) / FLOAT_BYTES {
        return Err(UploadError::TooLarge);
    }
    let vertex_count = float_count / width;
    assert(vertex_count * width == float_count) by (nonlinear_arith)
        requires
            vertex_count == float_count / width,
            float_count % width == 0,
            width >= 1,
    ;
    Ok(AttributeUpload {
        slot: slot as u32,
        width: width as i32,
        stride_bytes: (width * FLOAT_BYTES) as i32,
        byte_len: (float_count * FLOAT_BYTES) as isize,
        vertex_count,
    })
}

/// The first vertex and the vertex count of a non-indexed draw, as the device call
/// takes them; `None` where either does not fit.
pub fn plan_draw(length: usize, offset: usize) -> (r: Option<(i32, i32)>)
    ensures
        r is Some <==> length <= i32::MAX && offset <= i32::MAX,
        r matches Some(p) ==> p.0 == offset && p.1 == length,
{
    if length > i32::MAX as usize || offset > i32::MAX as usize {
        return None;
    }
    Some((offset as i32, length as i32))
}

} // verus!
