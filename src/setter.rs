//! The [`Setter`] impls: one per kind of value an option list can carry.
use crate::image::VipsImage;
use crate::resource::{VipsBlob, VipsInterpolate, VipsSource, VipsTarget};
use crate::value::{doubles_view, entry, Double, Output, ResourceKind, Setter, Slot, VOption, VipsValue};
use vstd::prelude::*;
use vstd::slice::slice_to_vec;

verus! {

/// The handles of a sequence of images.
pub open spec fn image_handles(images: Seq<VipsImage>) -> Seq<u64> {
    images.map_values(|i: VipsImage| i.ctx)
}

fn handles_of(images: &[VipsImage]) -> (r: Vec<u64>)
    ensures
        r@ == image_handles(images@),
{
    let mut r: Vec<u64> = Vec::new();
    let mut i: usize = 0;
    while i < images.len()
        invariant
            i <= images@.len(),
            r@ == image_handles(images@.subrange(0, i as int)),
        decreases images@.len() - i,
    {
        r.push(images[i].ctx);
        i = i + 1;
        proof {
            assert(image_handles(images@.subrange(0, i as int)) =~= image_handles(
                images@.subrange(0, i - 1),
            ).push(images@[i - 1].ctx));
        }
    }
    proof {
        assert(images@.subrange(0, i as int) =~= images@);
    }
    r
}

impl Setter<bool> for VOption {
    fn set(self, name: &str, value: bool) -> (r: VOption)
        ensures
            r@ == self@.push(entry(name@, Slot::Bool(value))),
    {
        let mut r = self;
        r.push_pair(name, VipsValue::Bool(value));
        r
    }

    fn add(&mut self, name: &str, value: bool)
        ensures
            final(self)@ == old(self)@.push(entry(name@, Slot::Bool(value))),
    {
        self.push_pair(name, VipsValue::Bool(value));
    }
}

impl Setter<i32> for VOption {
    fn set(self, name: &str, value: i32) -> (r: VOption)
        ensures
            r@ == self@.push(entry(name@, Slot::Int(value))),
    {
        let mut r = self;
        r.push_pair(name, VipsValue::Int(value));
        r
    }

    fn add(&mut self, name: &str, value: i32)
        ensures
            final(self)@ == old(self)@.push(entry(name@, Slot::Int(value))),
    {
        self.push_pair(name, VipsValue::Int(value));
    }
}

impl Setter<u64> for VOption {
    fn set(self, name: &str, value: u64) -> (r: VOption)
        ensures
            r@ == self@.push(entry(name@, Slot::Uint(value))),
    {
        let mut r = self;
        r.push_pair(name, VipsValue::Uint(value));
        r
    }

    fn add(&mut self, name: &str, value: u64)
        ensures
            final(self)@ == old(self)@.push(entry(name@, Slot::Uint(value))),
    {
        self.push_pair(name, VipsValue::Uint(value));
    }
}

impl Setter<Double> for VOption {
    fn set(self, name: &str, value: Double) -> (r: VOption)
        ensures
            r@ == self@.push(entry(name@, Slot::Double(value.bits))),
    {
        let mut r = self;
        r.push_pair(name, VipsValue::Double(value));
        r
    }

    fn add(&mut self, name: &str, value: Double)
        ensures
            final(self)@ == old(self)@.push(entry(name@, Slot::Double(value.bits))),
    {
        self.push_pair(name, VipsValue::Double(value));
    }
}

impl<'a> Setter<&'a str> for VOption {
    fn set(self, name: &str, value: &'a str) -> (r: VOption)
        ensures
            r@ == self@.push(entry(name@, Slot::Str(value@))),
    {
        let mut r = self;
        r.push_pair(name, VipsValue::Str(value.to_owned()));
        r
    }

    fn add(&mut self, name: &str, value: &'a str)
        ensures
            final(self)@ == old(self)@.push(entry(name@, Slot::Str(value@))),
    {
        self.push_pair(name, VipsValue::Str(value.to_owned()));
    }
}

impl<'a> Setter<&'a String> for VOption {
    fn set(self, name: &str, value: &'a String) -> (r: VOption)
        ensures
            r@ == self@.push(entry(name@, Slot::Str(value@))),
    {
        let mut r = self;
        r.push_pair(name, VipsValue::Str(value.clone()));
        r
    }

    fn add(&mut self, name: &str, value: &'a String)
        ensures
            final(self)@ == old(self)@.push(entry(name@, Slot::Str(value@))),
    {
        self.push_pair(name, VipsValue::Str(value.clone()));
    }
}

impl<'a> Setter<&'a VipsImage> for VOption {
    fn set(self, name: &str, value: &'a VipsImage) -> (r: VOption)
        ensures
            r@ == self@.push(entry(name@, Slot::Resource(ResourceKind::Image, value.ctx))),
    {
        let mut r = self;
        r.push_pair(name, VipsValue::Resource(ResourceKind::Image, value.ctx));
        r
    }

    fn add(&mut self, name: &str, value: &'a VipsImage)
        ensures
            final(self)@ == old(self)@.push(entry(name@, Slot::Resource(ResourceKind::Image, value.ctx))),
    {
        self.push_pair(name, VipsValue::Resource(ResourceKind::Image, value.ctx));
    }
}

impl<'a> Setter<&'a VipsBlob> for VOption {
    fn set(self, name: &str, value: &'a VipsBlob) -> (r: VOption)
        ensures
            r@ == self@.push(entry(name@, Slot::Resource(ResourceKind::Blob, value.ctx))),
    {
        let mut r = self;
        r.push_pair(name, VipsValue::Resource(ResourceKind::Blob, value.ctx));
        r
    }

    fn add(&mut self, name: &str, value: &'a VipsBlob)
        ensures
            final(self)@ == old(self)@.push(entry(name@, Slot::Resource(ResourceKind::Blob, value.ctx))),
    {
        self.push_pair(name, VipsValue::Resource(ResourceKind::Blob, value.ctx));
    }
}

impl<'a> Setter<&'a VipsSource> for VOption {
    fn set(self, name: &str, value: &'a VipsSource) -> (r: VOption)
        ensures
            r@ == self@.push(entry(name@, Slot::Resource(ResourceKind::Source, value.ctx))),
    {
        let mut r = self;
        r.push_pair(name, VipsValue::Resource(ResourceKind::Source, value.ctx));
        r
    }

    fn add(&mut self, name: &str, value: &'a VipsSource)
        ensures
            final(self)@ == old(self)@.push(entry(name@, Slot::Resource(ResourceKind::Source, value.ctx))),
    {
        self.push_pair(name, VipsValue::Resource(ResourceKind::Source, value.ctx));
    }
}

impl<'a> Setter<&'a VipsTarget> for VOption {
    fn set(self, name: &str, value: &'a VipsTarget) -> (r: VOption)
        ensures
            r@ == self@.push(entry(name@, Slot::Resource(ResourceKind::Target, value.ctx))),
    {
        let mut r = self;
        r.push_pair(name, VipsValue::Resource(ResourceKind::Target, value.ctx));
        r
    }

    fn add(&mut self, name: &str, value: &'a VipsTarget)
        ensures
            final(self)@ == old(self)@.push(entry(name@, Slot::Resource(ResourceKind::Target, value.ctx))),
    {
        self.push_pair(name, VipsValue::Resource(ResourceKind::Target, value.ctx));
    }
}

impl<'a> Setter<&'a VipsInterpolate> for VOption {
    fn set(self, name: &str, value: &'a VipsInterpolate) -> (r: VOption)
        ensures
            r@ == self@.push(entry(name@, Slot::Resource(ResourceKind::Interpolate, value.ctx))),
    {
        let mut r = self;
        r.push_pair(name, VipsValue::Resource(ResourceKind::Interpolate, value.ctx));
        r
    }

    fn add(&mut self, name: &str, value: &'a VipsInterpolate)
        ensures
            final(self)@ == old(self)@.push(entry(name@, Slot::Resource(ResourceKind::Interpolate, value.ctx))),
    {
        self.push_pair(name, VipsValue::Resource(ResourceKind::Interpolate, value.ctx));
    }
}

impl<'a> Setter<&'a [i32]> for VOption {
    fn set(self, name: &str, value: &'a [i32]) -> (r: VOption)
        ensures
            r@ == self@.push(entry(name@, Slot::IntArray(value@))),
    {
        let mut r = self;
        r.push_pair(name, VipsValue::IntArray(slice_to_vec(value)));
        r
    }

    fn add(&mut self, name: &str, value: &'a [i32])
        ensures
            final(self)@ == old(self)@.push(entry(name@, Slot::IntArray(value@))),
    {
        self.push_pair(name, VipsValue::IntArray(slice_to_vec(value)));
    }
}

impl<'a> Setter<&'a [Double]> for VOption {
    fn set(self, name: &str, value: &'a [Double]) -> (r: VOption)
        ensures
            r@ == self@.push(entry(name@, Slot::DoubleArray(doubles_view(value@)))),
    {
        let mut r = self;
        r.push_pair(name, VipsValue::DoubleArray(slice_to_vec(value)));
        r
    }

    fn add(&mut self, name: &str, value: &'a [Double])
        ensures
            final(self)@ == old(self)@.push(entry(name@, Slot::DoubleArray(doubles_view(value@)))),
    {
        self.push_pair(name, VipsValue::DoubleArray(slice_to_vec(value)));
    }
}

impl<'a> Setter<&'a [VipsImage]> for VOption {
    fn set(self, name: &str, value: &'a [VipsImage]) -> (r: VOption)
        ensures
            r@ == self@.push(entry(name@, Slot::ImageArray(image_handles(value@)))),
    {
        let mut r = self;
        r.push_pair(name, VipsValue::ImageArray(handles_of(value)));
        r
    }

    fn add(&mut self, name: &str, value: &'a [VipsImage])
        ensures
            final(self)@ == old(self)@.push(entry(name@, Slot::ImageArray(image_handles(value@)))),
    {
        self.push_pair(name, VipsValue::ImageArray(handles_of(value)));
    }
}

impl Setter<Output<bool>> for VOption {
    fn set(self, name: &str, value: Output<bool>) -> (r: VOption)
        ensures
            r@ == self@.push(entry(name@, Slot::MutBool(value.value))),
    {
        let mut r = self;
        r.push_pair(name, VipsValue::MutBool(value.value));
        r
    }

    fn add(&mut self, name: &str, value: Output<bool>)
        ensures
            final(self)@ == old(self)@.push(entry(name@, Slot::MutBool(value.value))),
    {
        self.push_pair(name, VipsValue::MutBool(value.value));
    }
}

impl Setter<Output<i32>> for VOption {
    fn set(self, name: &str, value: Output<i32>) -> (r: VOption)
        ensures
            r@ == self@.push(entry(name@, Slot::MutInt(value.value))),
    {
        let mut r = self;
        r.push_pair(name, VipsValue::MutInt(value.value));
        r
    }

    fn add(&mut self, name: &str, value: Output<i32>)
        ensures
            final(self)@ == old(self)@.push(entry(name@, Slot::MutInt(value.value))),
    {
        self.push_pair(name, VipsValue::MutInt(value.value));
    }
}

impl Setter<Output<Double>> for VOption {
    fn set(self, name: &str, value: Output<Double>) -> (r: VOption)
        ensures
            r@ == self@.push(entry(name@, Slot::MutDouble(value.value.bits))),
    {
        let mut r = self;
        r.push_pair(name, VipsValue::MutDouble(value.value));
        r
    }

    fn add(&mut self, name: &str, value: Output<Double>)
        ensures
            final(self)@ == old(self)@.push(entry(name@, Slot::MutDouble(value.value.bits))),
    {
        self.push_pair(name, VipsValue::MutDouble(value.value));
    }
}

impl Setter<Output<String>> for VOption {
    fn set(self, name: &str, value: Output<String>) -> (r: VOption)
        ensures
            r@ == self@.push(entry(name@, Slot::MutStr(value.value@))),
    {
        let mut r = self;
        r.push_pair(name, VipsValue::MutStr(value.value));
        r
    }

    fn add(&mut self, name: &str, value: Output<String>)
        ensures
            final(self)@ == old(self)@.push(entry(name@, Slot::MutStr(value.value@))),
    {
        self.push_pair(name, VipsValue::MutStr(value.value));
    }
}

impl Setter<Output<VipsImage>> for VOption {
    fn set(self, name: &str, value: Output<VipsImage>) -> (r: VOption)
        ensures
            r@ == self@.push(entry(name@, Slot::MutImage(value.value.ctx))),
    {
        let mut r = self;
        r.push_pair(name, VipsValue::MutImage(value.value.ctx));
        r
    }

    fn add(&mut self, name: &str, value: Output<VipsImage>)
        ensures
            final(self)@ == old(self)@.push(entry(name@, Slot::MutImage(value.value.ctx))),
    {
        self.push_pair(name, VipsValue::MutImage(value.value.ctx));
    }
}

impl Setter<Output<VipsBlob>> for VOption {
    fn set(self, name: &str, value: Output<VipsBlob>) -> (r: VOption)
        ensures
            r@ == self@.push(entry(name@, Slot::MutBlob(value.value.ctx))),
    {
        let mut r = self;
        r.push_pair(name, VipsValue::MutBlob(value.value.ctx));
        r
    }

    fn add(&mut self, name: &str, value: Output<VipsBlob>)
        ensures
            final(self)@ == old(self)@.push(entry(name@, Slot::MutBlob(value.value.ctx))),
    {
        self.push_pair(name, VipsValue::MutBlob(value.value.ctx));
    }
}

impl Setter<Output<Vec<Double>>> for VOption {
    fn set(self, name: &str, value: Output<Vec<Double>>) -> (r: VOption)
        ensures
            r@ == self@.push(entry(name@, Slot::MutDoubleArray(doubles_view(value.value@)))),
    {
        let mut r = self;
        r.push_pair(name, VipsValue::MutDoubleArray(value.value));
        r
    }

    fn add(&mut self, name: &str, value: Output<Vec<Double>>)
        ensures
            final(self)@ == old(self)@.push(entry(name@, Slot::MutDoubleArray(doubles_view(value.value@)))),
    {
        self.push_pair(name, VipsValue::MutDoubleArray(value.value));
    }
}

impl<'a, const N: usize> Setter<&'a [i32; N]> for VOption {
    fn set(self, name: &str, value: &'a [i32; N]) -> (r: VOption)
        ensures
            r@ == self@.push(entry(name@, Slot::IntArray(value@))),
    {
        self.set(name, value.as_slice())
    }

    fn add(&mut self, name: &str, value: &'a [i32; N])
        ensures
            final(self)@ == old(self)@.push(entry(name@, Slot::IntArray(value@))),
    {
        self.add(name, value.as_slice())
    }
}

impl<'a, const N: usize> Setter<&'a [Double; N]> for VOption {
    fn set(self, name: &str, value: &'a [Double; N]) -> (r: VOption)
        ensures
            r@ == self@.push(entry(name@, Slot::DoubleArray(doubles_view(value@)))),
    {
        self.set(name, value.as_slice())
    }

    fn add(&mut self, name: &str, value: &'a [Double; N])
        ensures
            final(self)@ == old(self)@.push(entry(name@, Slot::DoubleArray(doubles_view(value@)))),
    {
        self.add(name, value.as_slice())
    }
}

impl<'a, const N: usize> Setter<&'a [VipsImage; N]> for VOption {
    fn set(self, name: &str, value: &'a [VipsImage; N]) -> (r: VOption)
        ensures
            r@ == self@.push(entry(name@, Slot::ImageArray(image_handles(value@)))),
    {
        self.set(name, value.as_slice())
    }

    fn add(&mut self, name: &str, value: &'a [VipsImage; N])
        ensures
            final(self)@ == old(self)@.push(entry(name@, Slot::ImageArray(image_handles(value@)))),
    {
        self.add(name, value.as_slice())
    }
}

} // verus!
