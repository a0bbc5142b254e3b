use vstd::prelude::*;
use vstd::string::*;
use crate::bitmap::{
    buffer_fits, covers, filter_admits, filter_fits, overlaid, overlay, resize_exact,
    resize_fits, resized_exact, Bitmap, FilterKind,
};
use crate::decimal::{decimal, decimal_text};
use crate::errors::Errors;
use crate::source::ImageJson;

verus! {

/// What one request supplies to a template.
#[derive(Debug)]
pub struct TemplateInputJson {
    pub texts: Vec<String>,
    pub images: Vec<ImageJson>,
}

/// Composites an input image onto the working bitmap.
#[derive(Clone, Copy, Debug)]
pub struct Overlay {
    pub coords: (u32, u32),
    pub resize: (u32, u32),
    pub input_size: u32,
}

/// Renders an input text onto the working bitmap. The scale is in 64ths of a
/// pixel.
#[derive(Debug)]
pub struct DrawText {
    pub coords: (u32, u32),
    pub color: [u8; 4],
    pub scale: (u32, u32),
    pub max_width: usize,
    pub font: Option<String>,
}

/// One step of a template.
#[derive(Debug)]
pub enum Operation {
    DrawText(DrawText),
    Overlay(Overlay),
}

/// A named, ordered list of operations applied to a base image.
#[derive(Debug)]
pub struct Template {
    pub name: String,
    pub startfile: String,
    pub operations: Vec<Operation>,
}

/// One operation bound to its input.
#[derive(Debug)]
pub enum Step {
    /// Composite the resolved image number `layer` of the request as the
    /// overlay says.
    Paste { layer: usize, overlay: Overlay },
    /// Draw the wrapped text in the named font.
    Write { text: String, coords: (u32, u32), color: [u8; 4], scale: (u32, u32), font: String },
}

/// The colour of a text for which the template names none: transparent.
pub fn color_4() -> (color: [u8; 4])
    ensures
        color@ == seq![0u8, 0u8, 0u8, 0u8],
{
    let color: [u8; 4] = [0, 0, 0, 0];
    assert(color@ =~= seq![0u8, 0u8, 0u8, 0u8]);
    color
}

/// How many of the operations are overlays.
pub open spec fn overlay_count(ops: Seq<Operation>) -> nat
    decreases ops.len(),
{
    if ops.len() == 0 {
        0
    } else {
        overlay_count(ops.drop_last()) + if ops.last() is Overlay {
            1nat
        } else {
            0nat
        }
    }
}

/// How many of the operations draw text.
pub open spec fn text_count(ops: Seq<Operation>) -> nat
    decreases ops.len(),
{
    if ops.len() == 0 {
        0
    } else {
        text_count(ops.drop_last()) + if ops.last() is DrawText {
            1nat
        } else {
            0nat
        }
    }
}

/// Every operation is of one kind or the other.
pub proof fn counts_sum(ops: Seq<Operation>)
    ensures
        overlay_count(ops) + text_count(ops) == ops.len(),
    decreases ops.len(),
{
    if ops.len() > 0 {
        counts_sum(ops.drop_last());
    }
}

/// Counting is monotone along the list: a prefix holds no more of a kind
/// than the whole.
pub proof fn counts_of_prefix(ops: Seq<Operation>, n: int)
    requires
        0 <= n <= ops.len(),
    ensures
        overlay_count(ops.take(n)) <= overlay_count(ops),
        text_count(ops.take(n)) <= text_count(ops),
        n < ops.len() && ops[n] is Overlay ==> overlay_count(ops.take(n)) < overlay_count(ops),
        n < ops.len() && ops[n] is DrawText ==> text_count(ops.take(n)) < text_count(ops),
    decreases ops.len() - n,
{
    if n == ops.len() {
        assert(ops.take(n) =~= ops);
    } else {
        counts_of_prefix(ops, n + 1);
        assert(ops.take(n + 1).drop_last() =~= ops.take(n));
        assert(ops.take(n + 1).last() == ops[n]);
    }
}

/// What `textwrap::fill` makes of a text at a width: the text with line
/// breaks put in so that no line is wider than `width` columns where words
/// allow it.
pub uninterp spec fn wrapped_text(text: Seq<char>, width: usize) -> Seq<char>;

/// `textwrap::fill` with a plain width: the wrapped text.
#[verifier::external_body]
fn wrap_text(text: &str, width: usize) -> (wrapped: String)
    ensures
        wrapped@ == wrapped_text(text@, width),
{
    textwrap::fill(text, width)
}

impl DrawText {
    /// The step that draws `text`: the text wrapped at the operation's width,
    /// in the operation's font or, where it names none, the default one.
    pub open spec fn writes(&self, text: Seq<char>, default_font: Seq<char>, step: Step) -> bool {
        step matches Step::Write { text: wrapped, coords, color, scale, font } && wrapped@
            == wrapped_text(text, self.max_width) && coords == self.coords && color == self.color
            && scale == self.scale && font@ == (match self.font {
            Some(name) => name@,
            None => default_font,
        })
    }

    /// Binds the operation to its text.
    pub fn process(&self, text: &str, default_font: &str) -> (step: Step)
        ensures
            self.writes(text@, default_font@, step),
    {
        let wrapped = wrap_text(text, self.max_width);
        let font = match &self.font {
            Some(name) => name.clone(),
            None => String::from_str(default_font),
        };
        Step::Write { text: wrapped, coords: self.coords, color: self.color, scale: self.scale, font }
    }
}

impl Template {
    /// The request brings one image for each overlay and one text for each
    /// text operation.
    pub open spec fn accepts(&self, input: &TemplateInputJson) -> bool {
        input.images@.len() == overlay_count(self.operations@) && input.texts@.len() == text_count(
            self.operations@,
        )
    }

    fn count_overlays(&self) -> (n: usize)
        ensures
            n == overlay_count(self.operations@),
    {
        let mut n: usize = 0;
        let mut i: usize = 0;
        while i < self.operations.len()
            invariant
                i <= self.operations.len(),
                n <= i,
                n == overlay_count(self.operations@.take(i as int)),
            decreases self.operations.len() - i,
        {
            proof {
                assert(self.operations@.take(i + 1).drop_last() =~= self.operations@.take(i as int));
            }
            if let Operation::Overlay(_) = &self.operations[i] {
                n = n + 1;
            }
            i = i + 1;
        }
        proof {
            assert(self.operations@.take(i as int) =~= self.operations@);
        }
        n
    }

    fn count_texts(&self) -> (n: usize)
        ensures
            n == text_count(self.operations@),
    {
        let mut n: usize = 0;
        let mut i: usize = 0;
        while i < self.operations.len()
            invariant
                i <= self.operations.len(),
                n <= i,
                n == text_count(self.operations@.take(i as int)),
            decreases self.operations.len() - i,
        {
            proof {
                assert(self.operations@.take(i + 1).drop_last() =~= self.operations@.take(i as int));
            }
            if let Operation::DrawText(_) = &self.operations[i] {
                n = n + 1;
            }
            i = i + 1;
        }
        proof {
            assert(self.operations@.take(i as int) =~= self.operations@);
        }
        n
    }

    /// Checks that the request brings as many images and texts as the
    /// template consumes. A wrong number of images is reported before a
    /// wrong number of texts; either message names the number expected.
    pub fn validate(&self, input: &TemplateInputJson) -> (r: Result<(), Errors>)
        ensures
            r is Ok <==> self.accepts(input),
            input.images@.len() != overlay_count(self.operations@) ==> (r matches Err(
                Errors::InvalidInput(m),
            ) && m@ == "Invalid number of images, expected "@ + decimal_text(
                overlay_count(self.operations@),
            )),
            input.images@.len() == overlay_count(self.operations@) && input.texts@.len()
                != text_count(self.operations@) ==> (r matches Err(Errors::InvalidInput(m)) && m@
                == "Invalid number of texts, expected "@ + decimal_text(
                text_count(self.operations@),
            )),
    {
        let expected = self.count_overlays();
        if input.images.len() != expected {
            let mut text = String::from_str("Invalid number of images, expected ");
            let number = decimal(expected as u64);
            text.append(number.as_str());
            return Err(Errors::InvalidInput(text));
        }
        let expected = self.count_texts();
        if input.texts.len() != expected {
            let mut text = String::from_str("Invalid number of texts, expected ");
            let number = decimal(expected as u64);
            text.append(number.as_str());
            return Err(Errors::InvalidInput(text));
        }
        Ok(())
    }

    /// The size at which each image of a request is resolved: that of the
    /// overlay it is bound to, in the order of the overlays.
    pub fn overlay_sizes(&self) -> (sizes: Vec<u32>)
        ensures
            sizes@.len() == overlay_count(self.operations@),
            forall|i: int|
                0 <= i < self.operations@.len() ==> (#[trigger] self.operations@[i]
                    matches Operation::Overlay(o) ==> sizes@[overlay_count(
                    self.operations@.take(i),
                ) as int] == o.input_size),
    {
        let mut sizes: Vec<u32> = Vec::new();
        let mut i: usize = 0;
        while i < self.operations.len()
            invariant
                i <= self.operations.len(),
                sizes@.len() == overlay_count(self.operations@.take(i as int)),
                forall|j: int|
                    0 <= j < i ==> (#[trigger] self.operations@[j] matches Operation::Overlay(o)
                        ==> sizes@[overlay_count(self.operations@.take(j)) as int]
                        == o.input_size),
            decreases self.operations.len() - i,
        {
            proof {
                assert(self.operations@.take(i + 1).drop_last() =~= self.operations@.take(i as int));
                assert forall|j: int| 0 <= j < i implies overlay_count(self.operations@.take(j))
                    <= overlay_count(self.operations@.take(i as int)) by {
                    counts_of_prefix(self.operations@.take(i as int), j);
                    assert(self.operations@.take(i as int).take(j) =~= self.operations@.take(j));
                }
                assert forall|j: int|
                    0 <= j < i && self.operations@[j] is Overlay implies overlay_count(
                    self.operations@.take(j),
                ) < sizes@.len() by {
                    counts_of_prefix(self.operations@.take(i as int), j);
                    assert(self.operations@.take(i as int).take(j) =~= self.operations@.take(j));
                }
            }
            if let Operation::Overlay(o) = &self.operations[i] {
                sizes.push(o.input_size);
            }
            i = i + 1;
        }
        proof {
            assert(self.operations@.take(i as int) =~= self.operations@);
        }
        sizes
    }

    /// Step `i` of the plan binds operation `i` to its input: an overlay to
    /// the image whose number is the count of overlays before it, a text
    /// operation to the text whose number is the count of text operations
    /// before it, wrapped at the operation's width, in the operation's font or
    /// the default one.
    pub open spec fn binds(
        &self,
        input: &TemplateInputJson,
        default_font: Seq<char>,
        i: int,
        step: Step,
    ) -> bool {
        let before = self.operations@.take(i);
        match self.operations@[i] {
            Operation::Overlay(o) => step matches Step::Paste { layer, overlay } && layer
                == overlay_count(before) && overlay == o,
            Operation::DrawText(d) => d.writes(
                input.texts@[text_count(before) as int]@,
                default_font,
                step,
            ),
        }
    }

    /// Binds the inputs of a request to the operations, in the order of the
    /// operations: one step for each.
    pub fn process(&self, input: &TemplateInputJson, default_font: &str) -> (steps: Vec<Step>)
        requires
            self.accepts(input),
        ensures
            steps@.len() == self.operations@.len(),
            forall|i: int|
                0 <= i < steps@.len() ==> self.binds(input, default_font@, i, #[trigger] steps@[i]),
    {
        let mut steps: Vec<Step> = Vec::new();
        let mut text_index: usize = 0;
        let mut overlay_index: usize = 0;
        let mut i: usize = 0;
        while i < self.operations.len()
            invariant
                i <= self.operations.len(),
                self.accepts(input),
                steps@.len() == i,
                text_index <= i,
                overlay_index <= i,
                text_index == text_count(self.operations@.take(i as int)),
                overlay_index == overlay_count(self.operations@.take(i as int)),
                forall|j: int|
                    0 <= j < i ==> self.binds(input, default_font@, j, #[trigger] steps@[j]),
            decreases self.operations.len() - i,
        {
            proof {
                assert(self.operations@.take(i + 1).drop_last() =~= self.operations@.take(i as int));
                counts_of_prefix(self.operations@, i as int);
            }
            match &self.operations[i] {
                Operation::DrawText(d) => {
                    steps.push(d.process(input.texts[text_index].as_str(), default_font));
                    text_index = text_index + 1;
                },
                Operation::Overlay(o) => {
                    steps.push(Step::Paste { layer: overlay_index, overlay: *o });
                    overlay_index = overlay_index + 1;
                },
            }
            i = i + 1;
        }
        steps
    }
}

/// The working bitmap after a layer of the given size and pixels was
/// composited onto it with its upper left corner at `coords`.
pub open spec fn pasted_content(image: Bitmap, scaled: (u32, u32, Seq<u8>), coords: (u32, u32)) -> (
    u32,
    u32,
    Seq<u8>,
) {
    (
        image.width,
        image.height,
        overlaid(
            image.data@,
            image.width,
            image.height,
            scaled.2,
            scaled.0,
            scaled.1,
            coords.0,
            coords.1,
        ),
    )
}

impl Overlay {
    /// The layer can be scaled to the overlay's dimensions on this machine
    /// and with this filter.
    pub open spec fn can_scale(&self, layer: &Bitmap, filter: FilterKind) -> bool {
        resize_fits(layer.width, self.resize.0, self.resize.1) && filter_admits(
            filter,
            layer.width,
            layer.height,
            self.resize.0,
            self.resize.1,
        )
    }

    /// The working bitmap holds the composite of some layer of exactly the
    /// overlay's dimensions, pasted at the overlay's coordinates.
    pub open spec fn pasted(&self, image: Bitmap, out: Bitmap) -> bool {
        exists|top: Seq<u8>|
            top.len() == self.resize.0 as int * self.resize.1 as int * 4 && out.content()
                == #[trigger] pasted_content(image, (self.resize.0, self.resize.1, top), self.coords)
    }

    /// What `process` answers for a working bitmap and a layer.
    pub open spec fn outcome(
        &self,
        image: Bitmap,
        layer: &Bitmap,
        filter: FilterKind,
        r: Result<Bitmap, Errors>,
    ) -> bool {
        if !layer.has_pixels() {
            r matches Err(Errors::InvalidInput(m)) && m@ == "Overlay image has no pixels"@
        } else if !self.can_scale(layer, filter) {
            r matches Err(Errors::SizeLimit(m)) && m@ == "Overlay size is too large"@
        } else {
            r matches Ok(out) && out.wf() && self.pasted(image, out) && (filter.is_reproducible()
                ==> out.content() == pasted_content(
                image,
                (
                    self.resize.0,
                    self.resize.1,
                    resized_exact(
                        layer.data@,
                        layer.width,
                        layer.height,
                        self.resize.0,
                        self.resize.1,
                        filter,
                    ),
                ),
                self.coords,
            ))
        }
    }

    /// Scales the layer to exactly the overlay's dimensions and composites it
    /// onto the working bitmap with its upper left corner at the overlay's
    /// coordinates. The working bitmap keeps its size, and its pixels outside
    /// the pasted rectangle stay as they are.
    pub fn process(&self, image: Bitmap, layer: &Bitmap, filter: FilterKind) -> (r: Result<
        Bitmap,
        Errors,
    >)
        requires
            image.wf(),
            layer.wf(),
        ensures
            self.outcome(image, layer, filter, r),
            r matches Ok(out) ==> out.width == image.width && out.height == image.height,
            r matches Ok(out) ==> forall|x: int, y: int|
                0 <= x < image.width && 0 <= y < image.height && !covers(
                    self.coords,
                    self.resize,
                    x,
                    y,
                ) ==> #[trigger] out.pixel(x, y) == image.pixel(x, y),
    {
        if layer.width == 0 || layer.height == 0 {
            return Err(Errors::InvalidInput(String::from_str("Overlay image has no pixels")));
        }
        if !buffer_fits(self.resize.0, self.resize.1) || !buffer_fits(layer.width, self.resize.1)
            || !filter_fits(filter, layer.width, layer.height, self.resize.0, self.resize.1) {
            return Err(Errors::SizeLimit(String::from_str("Overlay size is too large")));
        }
        let scaled = resize_exact(layer, self.resize.0, self.resize.1, filter);
        let mut out = image;
        overlay(&mut out, &scaled, self.coords.0, self.coords.1);
        proof {
            assert(out.content() == pasted_content(
                image,
                (self.resize.0, self.resize.1, scaled.data@),
                self.coords,
            ));
        }
        Ok(out)
    }
}

} // verus!
