//! Images and the entry points that load and save them through operations.
use crate::dispatch::{call, call_option_string, invoke};
use crate::filename::{
    claimant, filename_part, find_claimant, find_for, find_handler, options_part, split_filename,
};
use crate::resource::{VipsBlob, VipsSource, VipsTarget};
use crate::runtime::{allocated, next_handle, released, Role, Runtime, RuntimeV};
use crate::value::{entry, Double, Output, PairV, ResourceKind, Setter, Slot, VOption, VipsValue};
use vstd::prelude::*;

verus! {

/// An image, by its handle in a [`crate::Runtime`]; `0` is null.
#[derive(Clone, Copy, PartialEq, Eq, Structural, Debug)]
pub struct VipsImage {
    pub ctx: u64,
}

/// Why loading or saving an image failed.
#[derive(Clone, Copy, PartialEq, Eq, Structural, Debug)]
pub enum Error {
    /// No image came out of loading.
    InitializationError,
    /// No saver handles the name, or saving failed.
    IOError,
    /// An operation failed.
    OperationError,
}

/// The pairs a file load is called with: the caller's, then the filename
/// and the output image.
pub open spec fn load_pairs(extra: Seq<PairV>, name: Seq<char>) -> Seq<PairV> {
    extra + seq![entry("filename"@, Slot::Str(name)), entry("out"@, Slot::MutImage(0))]
}

/// The image an output pair received; an error if it is null.
pub open spec fn image_of(p: PairV) -> Result<VipsImage, Error> {
    match p.slot {
        Slot::MutImage(h) => if h != 0 {
            Ok(VipsImage { ctx: h })
        } else {
            Err(Error::InitializationError)
        },
        _ => Err(Error::InitializationError),
    }
}

/// Loading `filename` with the caller's pairs `extra`: the first loader for
/// its suffix is called with its trailing options; the result is the image it
/// put out.
pub open spec fn load_file(rt: RuntimeV, filename: Seq<char>, extra: Seq<PairV>) -> (
    Result<VipsImage, Error>,
    RuntimeV,
) {
    let name = filename_part(filename);
    match find_for(rt.classes, Role::Load, name) {
        None => (Err(Error::InitializationError), rt),
        Some(c) => {
            let o = invoke(rt, rt.classes[c].name, options_part(filename), load_pairs(extra, name));
            (image_of(o.pairs[extra.len() + 1int]), o.rt)
        },
    }
}

/// Loading from byte buffer `buf` with option string `option_str` and the
/// caller's pairs `extra`: the first loader that claims the buffer is called
/// with a new blob of it, which is released afterwards; the result is the
/// image the loader put out.
pub open spec fn load_buffer(rt: RuntimeV, buf: Seq<u8>, option_str: Seq<char>, extra: Seq<PairV>) -> (
    Result<VipsImage, Error>,
    RuntimeV,
) {
    match claimant(rt.classes, Role::LoadBuffer, buf) {
        None => (Err(Error::InitializationError), rt),
        Some(c) => {
            let b = next_handle(rt.objects);
            let rt1 = RuntimeV { objects: allocated(rt.objects, ResourceKind::Blob), ..rt };
            let pairs = extra + seq![
                entry("buffer"@, Slot::Resource(ResourceKind::Blob, b)),
                entry("out"@, Slot::MutImage(0)),
            ];
            let o = invoke(rt1, rt.classes[c].name, option_str, pairs);
            (image_of(o.pairs[extra.len() + 1int]), RuntimeV { objects: released(o.rt.objects, b), ..o.rt })
        },
    }
}

/// Loading from `source` with option string `option_str` and the caller's
/// pairs `extra`: the first source loader that claims the source's leading
/// bytes is called with it; the result is the image the loader put out.
pub open spec fn load_source(rt: RuntimeV, source: u64, sniff: Seq<u8>, option_str: Seq<char>, extra: Seq<PairV>) -> (
    Result<VipsImage, Error>,
    RuntimeV,
) {
    match claimant(rt.classes, Role::LoadSource, sniff) {
        None => (Err(Error::InitializationError), rt),
        Some(c) => {
            let pairs = extra + seq![
                entry("source"@, Slot::Resource(ResourceKind::Source, source)),
                entry("out"@, Slot::MutImage(0)),
            ];
            let o = invoke(rt, rt.classes[c].name, option_str, pairs);
            (image_of(o.pairs[extra.len() + 1int]), o.rt)
        },
    }
}

/// Saving with the first class of role `role` that handles the suffix of
/// `dest`, called with `dest`'s trailing options and with `pairs`.
pub open spec fn save_with(rt: RuntimeV, role: Role, dest: Seq<char>, pairs: Seq<PairV>) -> (
    Result<(), Error>,
    RuntimeV,
) {
    match find_for(rt.classes, role, filename_part(dest)) {
        None => (Err(Error::IOError), rt),
        Some(c) => {
            let o = invoke(rt, rt.classes[c].name, options_part(dest), pairs);
            (if o.status == 0 {
                Ok(())
            } else {
                Err(Error::IOError)
            }, o.rt)
        },
    }
}

/// The pairs a save to a file is called with.
pub open spec fn file_save_pairs(extra: Seq<PairV>, img: u64, name: Seq<char>) -> Seq<PairV> {
    extra + seq![
        entry("in"@, Slot::Resource(ResourceKind::Image, img)),
        entry("filename"@, Slot::Str(name)),
    ]
}

/// The pairs a save to a target is called with.
pub open spec fn target_save_pairs(extra: Seq<PairV>, img: u64, target: u64) -> Seq<PairV> {
    extra + seq![
        entry("in"@, Slot::Resource(ResourceKind::Image, img)),
        entry("target"@, Slot::Resource(ResourceKind::Target, target)),
    ]
}

/// The pairs a search for an extreme position is called with.
pub open spec fn position_pairs(img: u64) -> Seq<PairV> {
    seq![
        entry("in"@, Slot::Resource(ResourceKind::Image, img)),
        entry("x"@, Slot::MutDouble(0)),
        entry("y"@, Slot::MutDouble(0)),
    ]
}

/// The double a destination holds (its zero if it is not a double).
pub open spec fn double_in(p: PairV) -> u64 {
    match p.slot {
        Slot::MutDouble(x) => x,
        _ => 0,
    }
}

/// Calling operation `op` on image `img` for an extreme position: the
/// coordinates it puts out, or an error if it fails.
pub open spec fn position(rt: RuntimeV, op: Seq<char>, img: u64) -> (Result<(Double, Double), Error>, RuntimeV) {
    let o = invoke(rt, op, Seq::empty(), position_pairs(img));
    (if o.status == 0 {
        Ok((Double { bits: double_in(o.pairs[1]) }, Double { bits: double_in(o.pairs[2]) }))
    } else {
        Err(Error::OperationError)
    }, o.rt)
}

fn double_at(option: &VOption, i: usize) -> (r: Double)
    requires
        i < option@.len(),
    ensures
        r.bits == double_in(option@[i as int]),
{
    match option.get(i).value() {
        VipsValue::MutDouble(x) => *x,
        _ => Double { bits: 0 },
    }
}

impl VipsImage {
    /// A new, empty image, held once by the caller; null if the resource
    /// table is full.
    pub fn new(rt: &mut Runtime) -> (r: VipsImage)
        requires
            old(rt)@.wf(),
        ensures
            r.ctx == next_handle(old(rt)@.objects),
            final(rt)@ == (RuntimeV { objects: allocated(old(rt)@.objects, ResourceKind::Image), ..old(rt)@ }),
            final(rt)@.wf(),
    {
        VipsImage { ctx: rt.new_resource(ResourceKind::Image) }
    }

    /// Loads an image from `filename`, which may end in `[options]`.
    pub fn new_from_file(rt: &mut Runtime, filename: &str) -> (r: Result<VipsImage, Error>)
        requires
            old(rt)@.wf(),
        ensures
            final(rt)@.wf(),
            (r, final(rt)@) == load_file(old(rt)@, filename@, Seq::empty()),
    {
        VipsImage::new_from_file_with_opts(rt, filename, VOption::new())
    }

    /// Loads an image from `filename`, which may end in `[options]`, passing
    /// the loader the pairs of `option` first.
    pub fn new_from_file_with_opts(rt: &mut Runtime, filename: &str, option: VOption) -> (r: Result<
        VipsImage,
        Error,
    >)
        requires
            old(rt)@.wf(),
        ensures
            final(rt)@.wf(),
            (r, final(rt)@) == load_file(old(rt)@, filename@, option@),
    {
        let (name, opts) = split_filename(filename);
        let c = match find_handler(&rt.classes, Role::Load, name.as_str()) {
            None => return Err(Error::InitializationError),
            Some(c) => c,
        };
        let op = rt.classes[c].name.clone();
        let ghost extra = option@;
        let mut option = option.set("filename", &name).set("out", Output { value: VipsImage { ctx: 0 } });
        assert(option@ =~= load_pairs(extra, name@));
        call_option_string(rt, op.as_str(), opts.as_str(), &mut option);
        let last = option.len() - 1;
        match option.get(last).value() {
            VipsValue::MutImage(h) => if *h != 0 {
                Ok(VipsImage { ctx: *h })
            } else {
                Err(Error::InitializationError)
            },
            _ => Err(Error::InitializationError),
        }
    }

    /// Loads an image from the bytes of `buffer`, with option string
    /// `option_str`.
    pub fn new_from_buffer(rt: &mut Runtime, buffer: &[u8], option_str: &str) -> (r: Result<VipsImage, Error>)
        requires
            old(rt)@.wf(),
        ensures
            final(rt)@.wf(),
            (r, final(rt)@) == load_buffer(old(rt)@, buffer@, option_str@, Seq::empty()),
    {
        VipsImage::new_from_buffer_with_opts(rt, buffer, option_str, VOption::new())
    }

    /// Loads an image from the bytes of `buffer`, with option string
    /// `option_str`, passing the loader the pairs of `option` first.
    pub fn new_from_buffer_with_opts(rt: &mut Runtime, buffer: &[u8], option_str: &str, option: VOption) -> (r:
        Result<VipsImage, Error>)
        requires
            old(rt)@.wf(),
        ensures
            final(rt)@.wf(),
            (r, final(rt)@) == load_buffer(old(rt)@, buffer@, option_str@, option@),
    {
        let c = match find_claimant(&rt.classes, Role::LoadBuffer, buffer) {
            None => return Err(Error::InitializationError),
            Some(c) => c,
        };
        let op = rt.classes[c].name.clone();
        let blob = VipsBlob { ctx: rt.new_resource(ResourceKind::Blob) };
        let ghost extra = option@;
        let mut option = option.set("buffer", &blob).set("out", Output { value: VipsImage { ctx: 0 } });
        assert(option@ =~= extra + seq![
            entry("buffer"@, Slot::Resource(ResourceKind::Blob, blob.ctx)),
            entry("out"@, Slot::MutImage(0)),
        ]);
        call_option_string(rt, op.as_str(), option_str, &mut option);
        rt.release(blob.ctx);
        let last = option.len() - 1;
        match option.get(last).value() {
            VipsValue::MutImage(h) => if *h != 0 {
                Ok(VipsImage { ctx: *h })
            } else {
                Err(Error::InitializationError)
            },
            _ => Err(Error::InitializationError),
        }
    }

    /// Loads an image from `source`, with option string `option_str`.
    pub fn new_from_source(rt: &mut Runtime, source: &VipsSource, option_str: &str) -> (r: Result<VipsImage, Error>)
        requires
            old(rt)@.wf(),
        ensures
            final(rt)@.wf(),
            (r, final(rt)@) == load_source(old(rt)@, source.ctx, source.sniff@, option_str@, Seq::empty()),
    {
        VipsImage::new_from_source_with_opts(rt, source, option_str, VOption::new())
    }

    /// Loads an image from `source`, with option string `option_str`,
    /// passing the loader the pairs of `option` first.
    pub fn new_from_source_with_opts(rt: &mut Runtime, source: &VipsSource, option_str: &str, option: VOption) -> (r:
        Result<VipsImage, Error>)
        requires
            old(rt)@.wf(),
        ensures
            final(rt)@.wf(),
            (r, final(rt)@) == load_source(old(rt)@, source.ctx, source.sniff@, option_str@, option@),
    {
        let c = match find_claimant(&rt.classes, Role::LoadSource, source.sniff.as_slice()) {
            None => return Err(Error::InitializationError),
            Some(c) => c,
        };
        let op = rt.classes[c].name.clone();
        let ghost extra = option@;
        let mut option = option.set("source", source).set("out", Output { value: VipsImage { ctx: 0 } });
        assert(option@ =~= extra + seq![
            entry("source"@, Slot::Resource(ResourceKind::Source, source.ctx)),
            entry("out"@, Slot::MutImage(0)),
        ]);
        call_option_string(rt, op.as_str(), option_str, &mut option);
        let last = option.len() - 1;
        match option.get(last).value() {
            VipsValue::MutImage(h) => if *h != 0 {
                Ok(VipsImage { ctx: *h })
            } else {
                Err(Error::InitializationError)
            },
            _ => Err(Error::InitializationError),
        }
    }

    /// Saves this image to `filename`, which may end in `[options]`.
    pub fn write_to_file(&self, rt: &mut Runtime, filename: &str) -> (r: Result<(), Error>)
        requires
            old(rt)@.wf(),
        ensures
            final(rt)@.wf(),
            (r, final(rt)@) == save_with(
                old(rt)@,
                Role::Save,
                filename@,
                file_save_pairs(Seq::empty(), self.ctx, filename_part(filename@)),
            ),
    {
        self.write_to_file_with_opts(rt, filename, VOption::new())
    }

    /// Saves this image to `filename`, which may end in `[options]`, passing
    /// the saver the pairs of `option` first.
    pub fn write_to_file_with_opts(&self, rt: &mut Runtime, filename: &str, option: VOption) -> (r: Result<
        (),
        Error,
    >)
        requires
            old(rt)@.wf(),
        ensures
            final(rt)@.wf(),
            (r, final(rt)@) == save_with(
                old(rt)@,
                Role::Save,
                filename@,
                file_save_pairs(option@, self.ctx, filename_part(filename@)),
            ),
    {
        let (name, opts) = split_filename(filename);
        let c = match find_handler(&rt.classes, Role::Save, name.as_str()) {
            None => return Err(Error::IOError),
            Some(c) => c,
        };
        let op = rt.classes[c].name.clone();
        let ghost extra = option@;
        let mut option = option.set("in", self).set("filename", &name);
        assert(option@ =~= file_save_pairs(extra, self.ctx, name@));
        if call_option_string(rt, op.as_str(), opts.as_str(), &mut option) == 0 {
            Ok(())
        } else {
            Err(Error::IOError)
        }
    }

    /// Saves this image to `target` in the format that `suffix` names (such
    /// as `.png`, optionally followed by `[options]`).
    pub fn write_to_target(&self, rt: &mut Runtime, suffix: &str, target: &VipsTarget) -> (r: Result<
        (),
        Error,
    >)
        requires
            old(rt)@.wf(),
        ensures
            final(rt)@.wf(),
            (r, final(rt)@) == save_with(
                old(rt)@,
                Role::SaveTarget,
                suffix@,
                target_save_pairs(Seq::empty(), self.ctx, target.ctx),
            ),
    {
        self.write_to_target_with_opts(rt, suffix, target, VOption::new())
    }

    /// Saves this image to `target` in the format that `suffix` names,
    /// passing the saver the pairs of `option` first.
    pub fn write_to_target_with_opts(
        &self,
        rt: &mut Runtime,
        suffix: &str,
        target: &VipsTarget,
        option: VOption,
    ) -> (r: Result<(), Error>)
        requires
            old(rt)@.wf(),
        ensures
            final(rt)@.wf(),
            (r, final(rt)@) == save_with(
                old(rt)@,
                Role::SaveTarget,
                suffix@,
                target_save_pairs(option@, self.ctx, target.ctx),
            ),
    {
        let (name, opts) = split_filename(suffix);
        let c = match find_handler(&rt.classes, Role::SaveTarget, name.as_str()) {
            None => return Err(Error::IOError),
            Some(c) => c,
        };
        let op = rt.classes[c].name.clone();
        let ghost extra = option@;
        let mut option = option.set("in", self).set("target", target);
        assert(option@ =~= target_save_pairs(extra, self.ctx, target.ctx));
        if call_option_string(rt, op.as_str(), opts.as_str(), &mut option) == 0 {
            Ok(())
        } else {
            Err(Error::IOError)
        }
    }

    fn extreme_position(&self, rt: &mut Runtime, op: &str) -> (r: Result<(Double, Double), Error>)
        requires
            old(rt)@.wf(),
        ensures
            final(rt)@.wf(),
            (r, final(rt)@) == position(old(rt)@, op@, self.ctx),
    {
        let mut option = VOption::new().set("in", self).set("x", Output { value: Double { bits: 0 } }).set(
            "y",
            Output { value: Double { bits: 0 } },
        );
        assert(option@ =~= position_pairs(self.ctx));
        let status = call(rt, op, &mut option);
        if status == 0 {
            Ok((double_at(&option, 1), double_at(&option, 2)))
        } else {
            Err(Error::OperationError)
        }
    }

    /// The position of this image's minimum, as the `min` operation reports it.
    pub fn minpos(&self, rt: &mut Runtime) -> (r: Result<(Double, Double), Error>)
        requires
            old(rt)@.wf(),
        ensures
            final(rt)@.wf(),
            (r, final(rt)@) == position(old(rt)@, "min"@, self.ctx),
    {
        self.extreme_position(rt, "min")
    }

    /// The position of this image's maximum, as the `max` operation reports it.
    pub fn maxpos(&self, rt: &mut Runtime) -> (r: Result<(Double, Double), Error>)
        requires
            old(rt)@.wf(),
        ensures
            final(rt)@.wf(),
            (r, final(rt)@) == position(old(rt)@, "max"@, self.ctx),
    {
        self.extreme_position(rt, "max")
    }

    /// The image's raw handle.
    pub fn as_mut_ptr(&self) -> (r: u64)
        ensures
            r == self.ctx,
    {
        self.ctx
    }
}

} // verus!
