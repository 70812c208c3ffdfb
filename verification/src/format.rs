//! Image formats and the access a device grants to each of them.

use vstd::prelude::*;

verus! {

/// Memory flag: read and written by kernels.
pub const MEM_READ_WRITE: u64 = 0x1;

/// Memory flag: written, never read, by kernels.
pub const MEM_WRITE_ONLY: u64 = 0x2;

/// Memory flag: read, never written, by kernels.
pub const MEM_READ_ONLY: u64 = 0x4;

/// Memory flag: read and written by a single kernel instance.
pub const MEM_KERNEL_READ_AND_WRITE: u64 = 0x1000;

/// Channel order: red, green, blue.
pub const CHANNEL_ORDER_RGB: u32 = 0x10B4;

/// Channel order: red, green, blue, padding.
pub const CHANNEL_ORDER_RGBX: u32 = 0x10BC;

/// Channel type: normalised 5-6-5 packed.
pub const CHANNEL_TYPE_UNORM_SHORT_565: u32 = 0x10D4;

/// Channel type: normalised 5-5-5 packed.
pub const CHANNEL_TYPE_UNORM_SHORT_555: u32 = 0x10D5;

/// The number of image object types.
pub const IMAGE_TYPE_COUNT: usize = 6;

/// The kinds of image objects, in the order the per-format tables list them.
#[derive(Clone, Copy, Debug, PartialEq, Eq, Structural)]
pub enum ImageType {
    Image1D,
    Image2D,
    Image3D,
    Image1DArray,
    Image2DArray,
    Image1DBuffer,
}

impl ImageType {
    /// Position of the type in the per-format tables.
    pub open spec fn spec_index(self) -> int {
        match self {
            ImageType::Image1D => 0,
            ImageType::Image2D => 1,
            ImageType::Image3D => 2,
            ImageType::Image1DArray => 3,
            ImageType::Image2DArray => 4,
            ImageType::Image1DBuffer => 5,
        }
    }

    /// Position of the type in the per-format tables.
    pub fn index(self) -> (i: usize)
        ensures
            i == self.spec_index(),
            i < IMAGE_TYPE_COUNT,
    {
        match self {
            ImageType::Image1D => 0,
            ImageType::Image2D => 1,
            ImageType::Image3D => 2,
            ImageType::Image1DArray => 3,
            ImageType::Image2DArray => 4,
            ImageType::Image1DBuffer => 5,
        }
    }
}

/// Channel layout of an image.
#[derive(Clone, Copy, Debug, PartialEq, Eq, Structural)]
pub struct ImageFormat {
    pub channel_order: u32,
    pub channel_data_type: u32,
}

/// What the backend can do with one format on one image type.
#[derive(Clone, Copy, Debug)]
pub struct FormatSupport {
    /// It can be sampled.
    pub sampler_view: bool,
    /// It can be bound as a shader image.
    pub shader_image: bool,
    /// It can be both at once.
    pub sampler_view_and_shader_image: bool,
}

/// One known image format, with the profiles that require it and the
/// backend's support for it on each image type.
#[derive(Debug)]
pub struct FormatInfo {
    pub format: ImageFormat,
    pub req_for_full_read_or_write: bool,
    pub req_for_embeded_read_or_write: bool,
    pub req_for_full_read_and_write: bool,
    pub is_srgb: bool,
    /// Indexed by [`ImageType::index`].
    pub support: [FormatSupport; 6],
}

/// The memory flags a device grants to one format, per image type.
#[derive(Debug)]
pub struct FormatFlags {
    pub format: ImageFormat,
    /// Indexed by [`ImageType::index`]; `None` where the format is not
    /// offered for the type at all.
    pub flags: Vec<Option<u64>>,
}


/// The flags with `bits` added where `cond` holds.
pub open spec fn with_bits(flags: u64, cond: bool, bits: u64) -> u64 {
    if cond {
        flags | bits
    } else {
        flags
    }
}

/// The flags with `bits` taken away.
pub open spec fn without_bits(flags: u64, bits: u64) -> u64 {
    flags & !bits
}

/// Three-channel formats other than the two packed ones are left out for
/// images made from buffers.
pub open spec fn left_out(format: ImageFormat, t: int) -> bool {
    &&& t == 5
    &&& format.channel_order == CHANNEL_ORDER_RGB || format.channel_order == CHANNEL_ORDER_RGBX
    &&& !(format.channel_data_type == CHANNEL_TYPE_UNORM_SHORT_565 || format.channel_data_type
        == CHANNEL_TYPE_UNORM_SHORT_555)
}

/// What the backend's support alone grants a format on image type `t`:
/// reading where it can be sampled; writing, and reading and writing in one
/// kernel, where it can be bound as a shader image; reading and writing
/// where it can be both. Nothing is written to an sRGB format.
pub open spec fn supported_flags(info: &FormatInfo, t: int) -> u64 {
    let s = info.support@[t];
    with_bits(
        with_bits(
            with_bits(0, s.sampler_view, MEM_READ_ONLY),
            !info.is_srgb && s.shader_image,
            MEM_WRITE_ONLY | MEM_KERNEL_READ_AND_WRITE,
        ),
        !info.is_srgb && s.sampler_view_and_shader_image,
        MEM_READ_WRITE,
    )
}

/// The flags of a format on image type `t` before any capability is
/// withdrawn: an image made from a buffer is granted no more than a 1D image.
pub open spec fn initial_flags(info: &FormatInfo, t: int) -> Option<u64> {
    if left_out(info.format, t) {
        None
    } else if t == 5 {
        Some(supported_flags(info, 5) & supported_flags(info, 0))
    } else {
        Some(supported_flags(info, t))
    }
}

/// The profile requires the format for reading or writing.
pub open spec fn required(info: &FormatInfo, embedded: bool) -> bool {
    if embedded {
        info.req_for_embeded_read_or_write
    } else {
        info.req_for_full_read_or_write
    }
}

/// 3D images can be written: every format the profile requires can be
/// written on 3D images.
pub open spec fn spec_has_3d_image_writes(infos: Seq<FormatInfo>, embedded: bool) -> bool {
    forall|f: int|
        0 <= f < infos.len() && required(#[trigger] &infos[f], embedded) ==> initial_flags(
            &infos[f],
            2,
        )->0 & MEM_WRITE_ONLY != 0
}

/// The flags of a format on image type `t` once 3D writes are settled:
/// without them, 3D images keep no flag that allows writing.
pub open spec fn settled_3d_flags(info: &FormatInfo, t: int, has_3d: bool) -> Option<u64> {
    match initial_flags(info, t) {
        Some(m) => if t == 2 && !has_3d {
            Some(without_bits(m, MEM_WRITE_ONLY | MEM_READ_WRITE | MEM_KERNEL_READ_AND_WRITE))
        } else {
            Some(m)
        },
        None => None,
    }
}

/// Images can be read and written by one kernel.
///
/// That takes formatted loads. On the embedded profile it then suffices
/// that some format allows it on some image type; on the full profile every
/// format required for reading and writing must allow it on every image
/// type it is offered for, 3D images aside.
pub open spec fn spec_has_rw_images(
    infos: Seq<FormatInfo>,
    embedded: bool,
    load_formatted: bool,
    has_3d: bool,
) -> bool {
    if !load_formatted {
        false
    } else if embedded {
        exists|f: int, t: int|
            0 <= f < infos.len() && 0 <= t < 6 && (#[trigger] settled_3d_flags(
                &infos[f],
                t,
                has_3d,
            ) matches Some(m) && m & MEM_KERNEL_READ_AND_WRITE != 0)
    } else {
        forall|f: int, t: int|
            0 <= f < infos.len() && 0 <= t < 6 && t != 2 && infos[f].req_for_full_read_and_write
                ==> (#[trigger] settled_3d_flags(&infos[f], t, has_3d) matches Some(m) ==> m
                & MEM_KERNEL_READ_AND_WRITE != 0)
    }
}

/// The flags a device grants a format on image type `t`.
pub open spec fn final_flags(info: &FormatInfo, t: int, has_3d: bool, has_rw: bool) -> Option<u64> {
    match settled_3d_flags(info, t, has_3d) {
        Some(m) => if has_rw {
            Some(m)
        } else {
            Some(without_bits(m, MEM_KERNEL_READ_AND_WRITE))
        },
        None => None,
    }
}

/// The table of flags and the two capabilities that come out of it.
#[derive(Debug)]
pub struct FormatTable {
    pub formats: Vec<FormatFlags>,
    pub has_3d_image_writes: bool,
    pub has_rw_images: bool,
}

impl FormatTable {
    /// The table is the one that follows from `infos` for the profile.
    pub open spec fn derived_from(
        &self,
        infos: Seq<FormatInfo>,
        embedded: bool,
        load_formatted: bool,
    ) -> bool {
        &&& self.has_3d_image_writes == spec_has_3d_image_writes(infos, embedded)
        &&& self.has_rw_images == spec_has_rw_images(
            infos,
            embedded,
            load_formatted,
            self.has_3d_image_writes,
        )
        &&& table_matches(
            self.formats@,
            infos,
            self.has_3d_image_writes,
            self.has_rw_images,
        )
    }
}

/// Row `f` of `formats` holds the final flags of format `f` of `infos`.
pub open spec fn table_matches(
    formats: Seq<FormatFlags>,
    infos: Seq<FormatInfo>,
    has_3d: bool,
    has_rw: bool,
) -> bool {
    &&& formats.len() == infos.len()
    &&& forall|f: int|
        0 <= f < infos.len() ==> {
            &&& (#[trigger] formats[f]).format == infos[f].format
            &&& formats[f].flags@.len() == 6
            &&& forall|t: int|
                0 <= t < 6 ==> #[trigger] formats[f].flags@[t] == final_flags(
                    &infos[f],
                    t,
                    has_3d,
                    has_rw,
                )
        }
}

/// Computes [`supported_flags`].
fn flags_of(info: &FormatInfo, t: usize) -> (flags: u64)
    requires
        t < 6,
    ensures
        flags == supported_flags(info, t as int),
{
    broadcast use vstd::array::array_len_matches_n;

    let s = info.support[t];
    let mut flags: u64 = 0;
    if s.sampler_view {
        flags = flags | MEM_READ_ONLY;
    }
    if !info.is_srgb && s.shader_image {
        flags = flags | (MEM_WRITE_ONLY | MEM_KERNEL_READ_AND_WRITE);
    }
    if !info.is_srgb && s.sampler_view_and_shader_image {
        flags = flags | MEM_READ_WRITE;
    }
    flags
}

/// Computes [`initial_flags`].
fn initial_flags_of(info: &FormatInfo, t: usize) -> (flags: Option<u64>)
    requires
        t < 6,
    ensures
        flags == initial_flags(info, t as int),
{
    let order = info.format.channel_order;
    let data = info.format.channel_data_type;
    if t == 5 && (order == CHANNEL_ORDER_RGB || order == CHANNEL_ORDER_RGBX) && !(data
        == CHANNEL_TYPE_UNORM_SHORT_565 || data == CHANNEL_TYPE_UNORM_SHORT_555) {
        None
    } else if t == 5 {
        Some(flags_of(info, 5) & flags_of(info, 0))
    } else {
        Some(flags_of(info, t))
    }
}

/// Computes [`spec_has_3d_image_writes`].
fn has_3d_image_writes_of(infos: &Vec<FormatInfo>, embedded: bool) -> (b: bool)
    ensures
        b == spec_has_3d_image_writes(infos@, embedded),
{
    let mut f: usize = 0;
    while f < infos.len()
        invariant
            f <= infos@.len(),
            forall|g: int|
                0 <= g < f && required(#[trigger] &infos@[g], embedded) ==> initial_flags(
                    &infos@[g],
                    2,
                )->0 & MEM_WRITE_ONLY != 0,
        decreases infos@.len() - f,
    {
        let req = if embedded {
            infos[f].req_for_embeded_read_or_write
        } else {
            infos[f].req_for_full_read_or_write
        };
        if req {
            let m = match initial_flags_of(&infos[f], 2) {
                Some(m) => m,
                None => 0,
            };
            if m & MEM_WRITE_ONLY == 0 {
                assert(required(&infos@[f as int], embedded));
                return false;
            }
        }
        f += 1;
    }
    true
}

/// Computes [`settled_3d_flags`].
fn settled_3d_flags_of(info: &FormatInfo, t: usize, has_3d: bool) -> (flags: Option<u64>)
    requires
        t < 6,
    ensures
        flags == settled_3d_flags(info, t as int, has_3d),
{
    match initial_flags_of(info, t) {
        Some(m) => if t == 2 && !has_3d {
            Some(m & !(MEM_WRITE_ONLY | MEM_READ_WRITE | MEM_KERNEL_READ_AND_WRITE))
        } else {
            Some(m)
        },
        None => None,
    }
}

/// Computes [`spec_has_rw_images`].
fn has_rw_images_of(infos: &Vec<FormatInfo>, embedded: bool, load_formatted: bool, has_3d: bool) -> (b:
    bool)
    ensures
        b == spec_has_rw_images(infos@, embedded, load_formatted, has_3d),
{
    if !load_formatted {
        return false;
    }
    let mut f: usize = 0;
    while f < infos.len()
        invariant
            f <= infos@.len(),
            load_formatted,
            embedded ==> forall|g: int, t: int|
                0 <= g < f && 0 <= t < 6 ==> !(#[trigger] settled_3d_flags(
                    &infos@[g],
                    t,
                    has_3d,
                ) matches Some(m) && m & MEM_KERNEL_READ_AND_WRITE != 0),
            !embedded ==> forall|g: int, t: int|
                0 <= g < f && 0 <= t < 6 && t != 2 && infos@[g].req_for_full_read_and_write
                    ==> (#[trigger] settled_3d_flags(&infos@[g], t, has_3d) matches Some(m) ==> m
                    & MEM_KERNEL_READ_AND_WRITE != 0),
        decreases infos@.len() - f,
    {
        let mut t: usize = 0;
        while t < 6
            invariant
                f < infos@.len(),
                t <= 6,
                load_formatted,
                embedded ==> forall|u: int|
                    0 <= u < t ==> !(#[trigger] settled_3d_flags(
                        &infos@[f as int],
                        u,
                        has_3d,
                    ) matches Some(m) && m & MEM_KERNEL_READ_AND_WRITE != 0),
                !embedded ==> forall|u: int|
                    0 <= u < t && u != 2 && infos@[f as int].req_for_full_read_and_write ==> (
                    #[trigger] settled_3d_flags(&infos@[f as int], u, has_3d) matches Some(m) ==> m
                        & MEM_KERNEL_READ_AND_WRITE != 0),
                embedded ==> forall|g: int, u: int|
                    0 <= g < f && 0 <= u < 6 ==> !(#[trigger] settled_3d_flags(
                        &infos@[g],
                        u,
                        has_3d,
                    ) matches Some(m) && m & MEM_KERNEL_READ_AND_WRITE != 0),
                !embedded ==> forall|g: int, u: int|
                    0 <= g < f && 0 <= u < 6 && u != 2 && infos@[g].req_for_full_read_and_write
                        ==> (#[trigger] settled_3d_flags(&infos@[g], u, has_3d) matches Some(m)
                        ==> m & MEM_KERNEL_READ_AND_WRITE != 0),
            decreases 6 - t,
        {
            if let Some(m) = settled_3d_flags_of(&infos[f], t, has_3d) {
                if embedded {
                    if m & MEM_KERNEL_READ_AND_WRITE != 0 {
                        assert(settled_3d_flags(&infos@[f as int], t as int, has_3d) matches Some(
                            m,
                        ) && m & MEM_KERNEL_READ_AND_WRITE != 0);
                        return true;
                    }
                } else if t != 2 && infos[f].req_for_full_read_and_write {
                    if m & MEM_KERNEL_READ_AND_WRITE == 0 {
                        assert(settled_3d_flags(&infos@[f as int], t as int, has_3d) == Some(m));
                        return false;
                    }
                }
            }
            t += 1;
        }
        f += 1;
    }
    !embedded
}

/// Derives the table of granted flags from the known formats and the
/// backend's support for them.
pub fn build_format_table(infos: &Vec<FormatInfo>, embedded: bool, load_formatted: bool) -> (table:
    FormatTable)
    ensures
        table.derived_from(infos@, embedded, load_formatted),
{
    let has_3d = has_3d_image_writes_of(infos, embedded);
    let has_rw = has_rw_images_of(infos, embedded, load_formatted, has_3d);
    let mut formats: Vec<FormatFlags> = Vec::new();
    let mut f: usize = 0;
    while f < infos.len()
        invariant
            f <= infos@.len(),
            formats@.len() == f,
            forall|g: int|
                0 <= g < f ==> {
                    &&& (#[trigger] formats@[g]).format == infos@[g].format
                    &&& formats@[g].flags@.len() == 6
                    &&& forall|t: int|
                        0 <= t < 6 ==> #[trigger] formats@[g].flags@[t] == final_flags(
                            &infos@[g],
                            t,
                            has_3d,
                            has_rw,
                        )
                },
        decreases infos@.len() - f,
    {
        let mut flags: Vec<Option<u64>> = Vec::new();
        let mut t: usize = 0;
        while t < 6
            invariant
                f < infos@.len(),
                t <= 6,
                flags@.len() == t,
                forall|u: int|
                    0 <= u < t ==> #[trigger] flags@[u] == final_flags(
                        &infos@[f as int],
                        u,
                        has_3d,
                        has_rw,
                    ),
            decreases 6 - t,
        {
            let entry = match settled_3d_flags_of(&infos[f], t, has_3d) {
                Some(m) => if has_rw {
                    Some(m)
                } else {
                    Some(m & !MEM_KERNEL_READ_AND_WRITE)
                },
                None => None,
            };
            flags.push(entry);
            t += 1;
        }
        formats.push(FormatFlags { format: infos[f].format, flags });
        f += 1;
    }
    FormatTable { formats, has_3d_image_writes: has_3d, has_rw_images: has_rw }
}

/// The flags that `formats` grants `format` on image type `t`; zero where
/// the format is unknown or not offered for the type.
pub fn granted_flags(formats: &Vec<FormatFlags>, format: ImageFormat, t: ImageType) -> (flags: u64)
    ensures
        flags == spec_granted_flags(formats@, format, t.spec_index(), 0),
{
    let mut f: usize = 0;
    while f < formats.len()
        invariant
            f <= formats@.len(),
            spec_granted_flags(formats@, format, t.spec_index(), 0) == spec_granted_flags(
                formats@,
                format,
                t.spec_index(),
                f as int,
            ),
        decreases formats@.len() - f,
    {
        if formats[f].format.channel_order == format.channel_order
            && formats[f].format.channel_data_type == format.channel_data_type {
            let i = t.index();
            if i < formats[f].flags.len() {
                return match formats[f].flags[i] {
                    Some(m) => m,
                    None => 0,
                };
            }
            return 0;
        }
        f += 1;
    }
    0
}

/// The flags granted by the first row for `format` at or after `from`.
pub open spec fn spec_granted_flags(formats: Seq<FormatFlags>, format: ImageFormat, t: int, from: int) -> u64
    decreases formats.len() - from,
{
    if from < 0 || from >= formats.len() {
        0
    } else if formats[from].format == format {
        if t < formats[from].flags@.len() {
            match formats[from].flags@[t] {
                Some(m) => m,
                None => 0,
            }
        } else {
            0
        }
    } else {
        spec_granted_flags(formats, format, t, from + 1)
    }
}

/// Taking bits away leaves none of them.
pub proof fn lemma_without_bits(m: u64, a: u64, b: u64, c: u64)
    by (bit_vector)
    ensures
        (m & !c) & c == 0,
        (m & !(a | b | c)) & (a | b | c) == 0,
        (m & !(a | b | c)) & c == 0,
        ((m & !(a | b | c)) & !c) & (a | b | c) == 0,
{
}

/// Where images cannot be read and written by one kernel, no format keeps
/// the flag that says so; and without 3D writes no format keeps a flag on
/// 3D images that allows writing.
pub proof fn lemma_withdrawn_flags_are_gone(info: &FormatInfo, t: int, has_3d: bool, has_rw: bool)
    requires
        final_flags(info, t, has_3d, has_rw) is Some,
    ensures
        !has_rw ==> final_flags(info, t, has_3d, has_rw)->0 & MEM_KERNEL_READ_AND_WRITE == 0,
        !has_3d && t == 2 ==> final_flags(info, t, has_3d, has_rw)->0 & (MEM_WRITE_ONLY
            | MEM_READ_WRITE | MEM_KERNEL_READ_AND_WRITE) == 0,
{
    let m = initial_flags(info, t)->0;
    lemma_without_bits(m, MEM_WRITE_ONLY, MEM_READ_WRITE, MEM_KERNEL_READ_AND_WRITE);
    let settled = settled_3d_flags(info, t, has_3d)->0;
    lemma_without_bits(settled, MEM_WRITE_ONLY, MEM_READ_WRITE, MEM_KERNEL_READ_AND_WRITE);
}

} // verus!
