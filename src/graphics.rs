use vstd::prelude::*;
use crate::number::{Number, number_eq};

verus! {

/// Where an image comes from.
#[derive(Debug)]
pub enum ImageReference {
    /// No image.
    NoImage,
    /// A file, by its absolute path.
    AbsolutePath(String),
    /// Encoded image data held in memory.
    EmbeddedData(Vec<u8>),
}

/// Mathematical form of an [`ImageReference`].
pub enum ImageModel {
    NoImage,
    AbsolutePath(Seq<char>),
    EmbeddedData(Seq<u8>),
}

impl ImageReference {
    pub open spec fn model(&self) -> ImageModel {
        match self {
            ImageReference::NoImage => ImageModel::NoImage,
            ImageReference::AbsolutePath(p) => ImageModel::AbsolutePath(p@),
            ImageReference::EmbeddedData(d) => ImageModel::EmbeddedData(d@),
        }
    }

    pub fn duplicate(&self) -> (r: ImageReference)
        ensures
            r.model() == self.model(),
    {
        match self {
            ImageReference::NoImage => ImageReference::NoImage,
            ImageReference::AbsolutePath(p) => ImageReference::AbsolutePath(p.clone()),
            ImageReference::EmbeddedData(d) => {
                let mut out: Vec<u8> = Vec::new();
                let mut i: usize = 0;
                while i < d.len()
                    invariant
                        i <= d.len(),
                        out@ == d@.subrange(0, i as int),
                    decreases d.len() - i,
                {
                    out.push(d[i]);
                    i = i + 1;
                    assert(out@ =~= d@.subrange(0, i as int));
                }
                assert(out@ =~= d@);
                ImageReference::EmbeddedData(out)
            },
        }
    }

    pub fn equals(&self, other: &ImageReference) -> (r: bool)
        ensures
            r == (self.model() == other.model()),
    {
        match (self, other) {
            (ImageReference::NoImage, ImageReference::NoImage) => true,
            (ImageReference::AbsolutePath(a), ImageReference::AbsolutePath(b)) => *a == *b,
            (ImageReference::EmbeddedData(a), ImageReference::EmbeddedData(b)) => {
                if a.len() != b.len() {
                    return false;
                }
                let mut i: usize = 0;
                while i < a.len()
                    invariant
                        self.model() == ImageModel::EmbeddedData(a@),
                        other.model() == ImageModel::EmbeddedData(b@),
                        i <= a.len(),
                        a.len() == b.len(),
                        forall|j: int| 0 <= j < i ==> a[j] == b[j],
                    decreases a.len() - i,
                {
                    if a[i] != b[i] {
                        assert(a@[i as int] != b@[i as int]);
                        return false;
                    }
                    i = i + 1;
                }
                assert(a@ =~= b@);
                true
            },
            _ => false,
        }
    }
}

/// A color, one byte per channel.
#[derive(Clone, Copy, Debug, PartialEq, Eq, Structural)]
pub struct Color {
    pub red: u8,
    pub green: u8,
    pub blue: u8,
    pub alpha: u8,
}

/// How an area is painted.
#[derive(Clone, Copy, Debug, PartialEq, Eq, Structural)]
pub enum Brush {
    /// Nothing is painted.
    NoBrush,
    /// One color everywhere.
    SolidColor(Color),
}

/// One step of a path.
#[derive(Clone, Copy, Debug)]
pub enum PathElement {
    MoveTo(Number, Number),
    LineTo(Number, Number),
    Close,
}

/// Two path steps are the same step to equal coordinates.
pub open spec fn path_element_eq(a: PathElement, b: PathElement) -> bool {
    match (a, b) {
        (PathElement::MoveTo(x1, y1), PathElement::MoveTo(x2, y2)) => number_eq(x1.bits, x2.bits)
            && number_eq(y1.bits, y2.bits),
        (PathElement::LineTo(x1, y1), PathElement::LineTo(x2, y2)) => number_eq(x1.bits, x2.bits)
            && number_eq(y1.bits, y2.bits),
        (PathElement::Close, PathElement::Close) => true,
        _ => false,
    }
}

impl PathElement {
    pub fn equals(&self, other: &PathElement) -> (r: bool)
        ensures
            r == path_element_eq(*self, *other),
    {
        match (self, other) {
            (PathElement::MoveTo(x1, y1), PathElement::MoveTo(x2, y2)) => x1.num_eq(x2) && y1.num_eq(y2),
            (PathElement::LineTo(x1, y1), PathElement::LineTo(x2, y2)) => x1.num_eq(x2) && y1.num_eq(y2),
            (PathElement::Close, PathElement::Close) => true,
            _ => false,
        }
    }
}

/// The geometry of a path, as a list of steps.
#[derive(Debug)]
pub struct PathData {
    pub elements: Vec<PathElement>,
}

/// Two paths are equal when they have the same steps.
pub open spec fn path_eq(a: Seq<PathElement>, b: Seq<PathElement>) -> bool {
    a.len() == b.len() && forall|i: int| 0 <= i < a.len() ==> path_element_eq(a[i], b[i])
}

impl PathData {
    pub fn duplicate(&self) -> (r: PathData)
        ensures
            r.elements@ == self.elements@,
    {
        let mut out: Vec<PathElement> = Vec::new();
        let mut i: usize = 0;
        while i < self.elements.len()
            invariant
                i <= self.elements.len(),
                out@ == self.elements@.subrange(0, i as int),
            decreases self.elements.len() - i,
        {
            out.push(self.elements[i]);
            i = i + 1;
            assert(out@ =~= self.elements@.subrange(0, i as int));
        }
        assert(out@ =~= self.elements@);
        PathData { elements: out }
    }

    pub fn equals(&self, other: &PathData) -> (r: bool)
        ensures
            r == path_eq(self.elements@, other.elements@),
    {
        if self.elements.len() != other.elements.len() {
            return false;
        }
        let mut i: usize = 0;
        while i < self.elements.len()
            invariant
                i <= self.elements.len(),
                self.elements.len() == other.elements.len(),
                forall|j: int| 0 <= j < i ==> path_element_eq(self.elements[j], other.elements[j]),
            decreases self.elements.len() - i,
        {
            if !self.elements[i].equals(&other.elements[i]) {
                return false;
            }
            i = i + 1;
        }
        true
    }
}

/// How an animation's progress follows time.
#[derive(Clone, Copy, Debug)]
pub enum EasingCurve {
    Linear,
    /// A cubic Bézier curve through its two inner control points.
    CubicBezier(Number, Number, Number, Number),
}

pub open spec fn easing_eq(a: EasingCurve, b: EasingCurve) -> bool {
    match (a, b) {
        (EasingCurve::Linear, EasingCurve::Linear) => true,
        (EasingCurve::CubicBezier(a1, a2, a3, a4), EasingCurve::CubicBezier(b1, b2, b3, b4)) => number_eq(
            a1.bits,
            b1.bits,
        ) && number_eq(a2.bits, b2.bits) && number_eq(a3.bits, b3.bits) && number_eq(a4.bits, b4.bits),
        _ => false,
    }
}

impl EasingCurve {
    pub fn equals(&self, other: &EasingCurve) -> (r: bool)
        ensures
            r == easing_eq(*self, *other),
    {
        match (self, other) {
            (EasingCurve::Linear, EasingCurve::Linear) => true,
            (EasingCurve::CubicBezier(a1, a2, a3, a4), EasingCurve::CubicBezier(b1, b2, b3, b4)) => a1.num_eq(b1)
                && a2.num_eq(b2) && a3.num_eq(b3) && a4.num_eq(b4),
            _ => false,
        }
    }
}

} // verus!
