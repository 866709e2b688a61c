use vstd::prelude::*;

verus! {

/// Mathematical model of a framebuffer: the pixel grid in row-major
/// order together with its dimensions.
pub struct FbView {
    pub data: Seq<bool>,
    pub width: u16,
    pub height: u16,
}

/// A monochrome pixel grid, row-major, `true` meaning lit.  Owned
/// exclusively by the execution core; the presentation layer only reads
/// the snapshot that `get_data` exposes.
pub struct Framebuffer {
    data: Vec<bool>,
    width: u16,
    height: u16,
}

impl View for Framebuffer {
    type V = FbView;

    closed spec fn view(&self) -> FbView {
        FbView { data: self.data@, width: self.width, height: self.height }
    }
}

proof fn lemma_index_in_grid(x: int, y: int, w: int, h: int)
    by (nonlinear_arith)
    requires
        0 <= x < w <= 0xFFFF,
        0 <= y < h <= 0xFFFF,
    ensures
        0 <= y * w + x < w * h,
        w * h <= 0xFFFF * 0xFFFF,
{
}

impl Framebuffer {
    pub open spec fn wf(&self) -> bool {
        &&& self@.data.len() == self@.width * self@.height
        &&& self@.width >= 1
        &&& self@.height >= 1
    }

    /// Grid position of pixel `(x, y)` in the row-major data.
    pub open spec fn spec_pos(&self, x: int, y: int) -> int {
        y * self@.width + x
    }

    /// A grid of the given dimensions with every pixel unlit.
    pub fn new(width: u16, height: u16) -> (fb: Framebuffer)
        requires
            width >= 1,
            height >= 1,
        ensures
            fb.wf(),
            fb@.width == width,
            fb@.height == height,
            fb@.data == Seq::new((width * height) as nat, |p: int| false),
    {
        proof {
            lemma_index_in_grid(
                (width - 1) as int,
                (height - 1) as int,
                width as int,
                height as int,
            );
        }
        let size: usize = (width as usize) * (height as usize);
        let mut data: Vec<bool> = Vec::new();
        let mut i: usize = 0;
        while i < size
            invariant
                i <= size,
                size == width * height,
                data@.len() == i,
                forall|k: int| 0 <= k < i ==> !data@[k],
            decreases size - i,
        {
            data.push(false);
            i += 1;
        }
        proof {
            assert(data@ =~= Seq::new((width * height) as nat, |p: int| false));
        }
        Framebuffer { data, width, height }
    }

    pub fn get_width(&self) -> (w: u16)
        ensures
            w == self@.width,
    {
        self.width
    }

    pub fn get_height(&self) -> (h: u16)
        ensures
            h == self@.height,
    {
        self.height
    }

    /// Whether pixel `(x, y)` is lit.
    pub fn get_pixel(&self, x: u16, y: u16) -> (lit: bool)
        requires
            self.wf(),
            x < self@.width,
            y < self@.height,
        ensures
            lit == self@.data[self.spec_pos(x as int, y as int)],
    {
        proof {
            lemma_index_in_grid(x as int, y as int, self@.width as int, self@.height as int);
        }
        let pos: usize = (y as usize) * (self.width as usize) + (x as usize);
        self.data[pos]
    }

    /// Set pixel `(x, y)` to the given value.
    pub fn draw_pixel(&mut self, x: u16, y: u16, value: bool)
        requires
            old(self).wf(),
            x < old(self)@.width,
            y < old(self)@.height,
        ensures
            final(self).wf(),
            final(self)@.width == old(self)@.width,
            final(self)@.height == old(self)@.height,
            final(self)@.data == old(self)@.data.update(
                old(self).spec_pos(x as int, y as int),
                value,
            ),
    {
        proof {
            lemma_index_in_grid(x as int, y as int, self@.width as int, self@.height as int);
        }
        let pos: usize = (y as usize) * (self.width as usize) + (x as usize);
        self.data[pos] = value;
    }

    /// XOR `value` onto pixel `(x, y)`; report a collision exactly when a
    /// lit pixel is erased, that is when both the pixel and `value` are
    /// true.
    pub fn xor_pixel(&mut self, x: u16, y: u16, value: bool) -> (collision: bool)
        requires
            old(self).wf(),
            x < old(self)@.width,
            y < old(self)@.height,
        ensures
            final(self).wf(),
            final(self)@.width == old(self)@.width,
            final(self)@.height == old(self)@.height,
            collision == (old(self)@.data[old(self).spec_pos(x as int, y as int)] && value),
            final(self)@.data == old(self)@.data.update(
                old(self).spec_pos(x as int, y as int),
                old(self)@.data[old(self).spec_pos(x as int, y as int)] != value,
            ),
    {
        proof {
            lemma_index_in_grid(x as int, y as int, self@.width as int, self@.height as int);
        }
        let pos: usize = (y as usize) * (self.width as usize) + (x as usize);
        let previous = self.data[pos];
        self.data[pos] = previous != value;
        previous && value
    }

    /// Unlight every pixel.
    pub fn clear(&mut self)
        requires
            old(self).wf(),
        ensures
            final(self).wf(),
            final(self)@.width == old(self)@.width,
            final(self)@.height == old(self)@.height,
            final(self)@.data == Seq::new(old(self)@.data.len(), |p: int| false),
    {
        let size: usize = self.data.len();
        let mut i: usize = 0;
        while i < size
            invariant
                i <= size,
                self.data@.len() == size,
                self.width == old(self)@.width,
                self.height == old(self)@.height,
                size == self@.width * self@.height,
                forall|k: int| 0 <= k < i ==> !self.data@[k],
            decreases size - i,
        {
            self.data[i] = false;
            i += 1;
        }
        proof {
            assert(self@.data =~= Seq::new(old(self)@.data.len(), |p: int| false));
        }
    }

    /// Read-only snapshot of the whole grid, row-major, for the
    /// presentation layer.
    pub fn get_data(&self) -> (d: &[bool])
        ensures
            d@ == self@.data,
    {
        self.data.as_slice()
    }
}

} // verus!
