//! The extensions and language features a device advertises.

use vstd::prelude::*;
use vstd::string::StringExecFns;
use crate::device::Device;
use crate::version::NameVersion;
use crate::version::mk_cl_version;
use crate::version::spec_mk_cl_version;

verus! {

/// A versioned name as a pair of packed version and name.
pub open spec fn named(list: Seq<NameVersion>) -> Seq<(u32, Seq<char>)> {
    Seq::new(list.len(), |i: int| (list[i].version, list[i].name@))
}

/// The texts of a list of strings.
pub open spec fn texts(list: Seq<String>) -> Seq<Seq<char>> {
    Seq::new(list.len(), |i: int| list[i]@)
}

/// The pair for `name` at version `major.minor.patch`.
pub open spec fn versioned(major: u32, minor: u32, patch: u32, name: Seq<char>) -> (u32, Seq<char>) {
    (spec_mk_cl_version(major, minor, patch) as u32, name)
}

/// The list with `name` at version 1.0.0 appended where `cond` holds.
pub open spec fn offered(list: Seq<(u32, Seq<char>)>, cond: bool, name: Seq<char>) -> Seq<
    (u32, Seq<char>),
> {
    if cond {
        list.push(versioned(1, 0, 0, name))
    } else {
        list
    }
}

/// The names of the first `n` entries, separated by single spaces.
pub open spec fn joined(list: Seq<(u32, Seq<char>)>, n: int) -> Seq<char>
    decreases n,
{
    if n <= 0 {
        Seq::empty()
    } else if n == 1 {
        list[0].1
    } else {
        joined(list, n - 1) + seq![' '] + list[n - 1].1
    }
}

impl Device {
    /// The extensions of the device: those of the platform, then the ones
    /// every device has, then each one whose condition the device meets.
    pub open spec fn spec_extensions(&self, platform: Seq<(u32, Seq<char>)>) -> Seq<
        (u32, Seq<char>),
    > {
        let base = platform.push(versioned(1, 0, 0, "cl_khr_global_int32_base_atomics"@)).push(
            versioned(1, 0, 0, "cl_khr_global_int32_extended_atomics"@),
        ).push(versioned(2, 0, 0, "cl_khr_integer_dot_product"@)).push(
            versioned(1, 0, 0, "cl_khr_local_int32_base_atomics"@),
        ).push(versioned(1, 0, 0, "cl_khr_local_int32_extended_atomics"@));
        let e1 = offered(base, self.config.fp16 && self.screen.shader.fp16 != 0, "cl_khr_fp16"@);
        let e2 = offered(e1, self.config.fp64 && self.screen.caps.doubles == 1, "cl_khr_fp64"@);
        let e3 = offered(e2, self.spec_gl_sharing(), "cl_khr_gl_sharing"@);
        let e4 = offered(e3, self.screen.caps.int64 == 1 && self.embedded, "cles_khr_int64"@);
        let e5 = offered(
            e4,
            self.caps.has_images && self.spec_image2d_from_buffer(),
            "cl_khr_image2d_from_buffer"@,
        );
        let e6 = offered(
            e5,
            self.caps.has_images && self.caps.has_3d_image_writes,
            "cl_khr_3d_image_writes"@,
        );
        let e7 = offered(e6, self.spec_pci_info() is Some, "cl_khr_pci_bus_info"@);
        let e8 = offered(
            e7,
            self.screen.device_uuid is Some && self.screen.driver_uuid is Some,
            "cl_khr_device_uuid"@,
        );
        let e9 = offered(e8, self.spec_subgroups_supported(), "cl_khr_subgroup_shuffle"@);
        let e10 = offered(
            e9,
            self.spec_subgroups_supported(),
            "cl_khr_subgroup_shuffle_relative"@,
        );
        offered(e10, self.spec_svm_supported(), "cl_arm_shared_virtual_memory"@)
    }

    /// The optional language features of the device, as versioned names.
    pub open spec fn spec_features(&self) -> Seq<(u32, Seq<char>)> {
        let base = Seq::<(u32, Seq<char>)>::empty().push(
            versioned(2, 0, 0, "__opencl_c_integer_dot_product_input_4x8bit_packed"@),
        ).push(versioned(2, 0, 0, "__opencl_c_integer_dot_product_input_4x8bit"@));
        let f1 = offered(base, self.config.fp64 && self.screen.caps.doubles == 1, "__opencl_c_fp64"@);
        let f2 = offered(f1, self.screen.caps.int64 == 1, "__opencl_c_int64"@);
        let f3 = offered(f2, self.caps.has_images, "__opencl_c_images"@);
        let f4 = offered(
            f3,
            self.caps.has_images && self.caps.has_rw_images,
            "__opencl_c_read_write_images"@,
        );
        let f5 = offered(
            f4,
            self.caps.has_images && self.caps.has_3d_image_writes,
            "__opencl_c_3d_image_writes"@,
        );
        offered(f5, self.spec_subgroups_supported(), "__opencl_c_subgroups"@)
    }

    /// The extensions of the intermediate representation every device takes.
    pub open spec fn spec_spirv_extensions() -> Seq<Seq<char>> {
        seq![
            "SPV_KHR_expect_assume"@,
            "SPV_KHR_float_controls"@,
            "SPV_KHR_integer_dot_product"@,
            "SPV_KHR_no_integer_wrap_decoration"@,
        ]
    }
}

/// Appends `name` at version `major.minor.patch`.
fn append(list: &mut Vec<NameVersion>, major: u32, minor: u32, patch: u32, name: &str)
    requires
        major < 1024,
        minor < 1024,
        patch < 4096,
    ensures
        named(final(list)@) == named(old(list)@).push(versioned(major, minor, patch, name@)),
{
    let ghost before = list@;
    list.push(NameVersion { version: mk_cl_version(major, minor, patch), name: name.to_owned() });
    assert(named(list@) =~= named(before).push(versioned(major, minor, patch, name@)));
}

/// Appends `name` at version 1.0.0 where `cond` holds.
fn offer(list: &mut Vec<NameVersion>, cond: bool, name: &str)
    ensures
        named(final(list)@) == offered(named(old(list)@), cond, name@),
{
    if cond {
        append(list, 1, 0, 0, name);
    }
}

/// Copies a list of versioned names.
pub fn copy_names(src: &Vec<NameVersion>) -> (dst: Vec<NameVersion>)
    ensures
        named(dst@) == named(src@),
{
    let mut dst: Vec<NameVersion> = Vec::new();
    let mut i: usize = 0;
    while i < src.len()
        invariant
            i <= src@.len(),
            dst@.len() == i,
            forall|j: int|
                0 <= j < i ==> (#[trigger] dst@[j]).version == src@[j].version && dst@[j].name@
                    == src@[j].name@,
        decreases src@.len() - i,
    {
        dst.push(NameVersion { version: src[i].version, name: src[i].name.clone() });
        i += 1;
    }
    assert(named(dst@) =~= named(src@));
    dst
}

/// Joins the names of a list with single spaces.
pub fn join_names(list: &Vec<NameVersion>) -> (s: String)
    ensures
        s@ == joined(named(list@), list@.len() as int),
{
    let mut s = String::new();
    let mut i: usize = 0;
    while i < list.len()
        invariant
            i <= list@.len(),
            s@ == joined(named(list@), i as int),
        decreases list@.len() - i,
    {
        if i > 0 {
            proof {
                reveal_strlit(" ");
                assert(" "@ =~= seq![' ']);
            }
            s.append(" ");
        }
        s.append(list[i].name.as_str());
        proof {
            assert(named(list@)[i as int].1 == list@[i as int].name@);
            if i == 0 {
                assert(Seq::<char>::empty() + list@[0].name@ =~= list@[0].name@);
            }
        }
        i += 1;
    }
    s
}

impl Device {
    /// Works out the extensions, the language features and the extension
    /// string of the device.
    ///
    /// `platform_extensions` are the extensions every device of the
    /// platform has. The extension string lists the names of all
    /// extensions, separated by single spaces.
    pub fn fill_extensions(&mut self, platform_extensions: &Vec<NameVersion>)
        ensures
            named(final(self).extensions@) == old(self).spec_extensions(named(platform_extensions@)),
            named(final(self).clc_features@) == old(self).spec_features(),
            texts(final(self).spirv_extensions@) == Self::spec_spirv_extensions(),
            final(self).extension_string@ == joined(
                named(final(self).extensions@),
                final(self).extensions@.len() as int,
            ),
            final(self).screen == old(self).screen,
            final(self).config == old(self).config,
            final(self).caps == old(self).caps,
            final(self).custom == old(self).custom,
            final(self).embedded == old(self).embedded,
            final(self).formats == old(self).formats,
            final(self).reusable_ctx == old(self).reusable_ctx,
            final(self).cl_version == old(self).cl_version,
            final(self).clc_version == old(self).clc_version,
            final(self).clc_versions == old(self).clc_versions,
    {
        let mut exts = copy_names(platform_extensions);
        let mut feats: Vec<NameVersion> = Vec::new();
        let mut spirv_exts: Vec<String> = Vec::new();
        assert(named(feats@) =~= Seq::<(u32, Seq<char>)>::empty());

        append(&mut exts, 1, 0, 0, "cl_khr_global_int32_base_atomics");
        append(&mut exts, 1, 0, 0, "cl_khr_global_int32_extended_atomics");
        append(&mut exts, 2, 0, 0, "cl_khr_integer_dot_product");
        append(&mut feats, 2, 0, 0, "__opencl_c_integer_dot_product_input_4x8bit_packed");
        append(&mut feats, 2, 0, 0, "__opencl_c_integer_dot_product_input_4x8bit");
        append(&mut exts, 1, 0, 0, "cl_khr_local_int32_base_atomics");
        append(&mut exts, 1, 0, 0, "cl_khr_local_int32_extended_atomics");

        spirv_exts.push("SPV_KHR_expect_assume".to_owned());
        spirv_exts.push("SPV_KHR_float_controls".to_owned());
        spirv_exts.push("SPV_KHR_integer_dot_product".to_owned());
        spirv_exts.push("SPV_KHR_no_integer_wrap_decoration".to_owned());
        assert(texts(spirv_exts@) =~= Self::spec_spirv_extensions());

        let fp64 = self.fp64_supported();
        let int64 = self.int64_supported();
        let images = self.caps.has_images;
        let writes_3d = self.caps.has_3d_image_writes;
        let subgroups = self.subgroups_supported();

        offer(&mut exts, self.fp16_supported(), "cl_khr_fp16");
        offer(&mut exts, fp64, "cl_khr_fp64");
        offer(&mut feats, fp64, "__opencl_c_fp64");
        offer(&mut exts, self.is_gl_sharing_supported(), "cl_khr_gl_sharing");
        offer(&mut exts, int64 && self.embedded, "cles_khr_int64");
        offer(&mut feats, int64, "__opencl_c_int64");
        offer(&mut feats, images, "__opencl_c_images");
        offer(&mut exts, images && self.image2d_from_buffer_supported(), "cl_khr_image2d_from_buffer");
        offer(&mut feats, images && self.caps.has_rw_images, "__opencl_c_read_write_images");
        offer(&mut exts, images && writes_3d, "cl_khr_3d_image_writes");
        offer(&mut feats, images && writes_3d, "__opencl_c_3d_image_writes");
        offer(&mut exts, self.pci_info().is_some(), "cl_khr_pci_bus_info");
        offer(
            &mut exts,
            self.screen.device_uuid.is_some() && self.screen.driver_uuid.is_some(),
            "cl_khr_device_uuid",
        );
        offer(&mut feats, subgroups, "__opencl_c_subgroups");
        offer(&mut exts, subgroups, "cl_khr_subgroup_shuffle");
        offer(&mut exts, subgroups, "cl_khr_subgroup_shuffle_relative");
        offer(&mut exts, self.svm_supported(), "cl_arm_shared_virtual_memory");

        self.extension_string = join_names(&exts);
        self.extensions = exts;
        self.clc_features = feats;
        self.spirv_extensions = spirv_exts;
    }
}

} // verus!
