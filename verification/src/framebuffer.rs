use vstd::prelude::*;

verus! {

/// A 'Framebuffer' object: a width x height buffer of packed color words,
/// row-major with the origin at the top left.
pub struct Framebuffer {
    buffer: Vec<u32>,
    width: usize,
    height: usize,
}

impl Framebuffer {
    /// The pixel words in row-major order.
    pub closed spec fn view(&self) -> Seq<u32> {
        self.buffer@
    }

    pub closed spec fn width(&self) -> usize {
        self.width
    }

    pub closed spec fn height(&self) -> usize {
        self.height
    }

    /// The buffer holds exactly one word per pixel.
    pub open spec fn wf(&self) -> bool {
        self@.len() == self.width() * self.height()
    }

    /// Creates a new 'Framebuffer' object with a width and height.
    pub fn new(width: usize, height: usize) -> (fb: Self)
        requires
            width * height <= usize::MAX,
        ensures
            fb.wf(),
            fb.width() == width,
            fb.height() == height,
            forall|i: int| 0 <= i < fb@.len() ==> fb@[i] == 0u32,
    {
        let buffer: Vec<u32> = vec![0u32; width * height];

        Framebuffer { buffer, width, height }
    }

    /// Returns the color at a particular x and y coord in the framebuffer.
    pub fn get_color_at(&self, x_coord: &u32, y_coord: &u32) -> (color: &u32)
        requires
            self.wf(),
            *x_coord < self.width(),
            *y_coord < self.height(),
        ensures
            *color == self@[*y_coord * self.width() + *x_coord],
    {
        assert(*x_coord + *y_coord * self.width < self.buffer.len()) by (nonlinear_arith)
            requires
                *x_coord < self.width,
                *y_coord < self.height,
                self.buffer.len() == self.width * self.height,
        ;
        &self.buffer[(*x_coord as usize) + (*y_coord as usize) * self.width]
    }

    /// Sets the color at a particular x and y coord in the framebuffer;
    /// writes outside the frame are silently dropped.
    pub fn set_color_at(&mut self, x_coord: &u32, y_coord: &u32, color: u32)
        requires
            old(self).wf(),
        ensures
            final(self).wf(),
            final(self).width() == old(self).width(),
            final(self).height() == old(self).height(),
            *x_coord < old(self).width() && *y_coord < old(self).height() ==> final(self)@
                =~= old(self)@.update(*y_coord * old(self).width() + *x_coord, color),
            !(*x_coord < old(self).width() && *y_coord < old(self).height()) ==> final(self)@
                == old(self)@,
    {
        if (*y_coord as usize) < self.height && (*x_coord as usize) < self.width {
            assert(*x_coord + *y_coord * self.width < self.buffer.len()) by (nonlinear_arith)
                requires
                    *x_coord < self.width,
                    *y_coord < self.height,
                    self.buffer.len() == self.width * self.height,
            ;
            let idx: usize = (*x_coord as usize) + (*y_coord as usize) * self.width;
            self.buffer[idx] = color;
        }
    }

    /// The frame's width in pixels.
    pub fn width_value(&self) -> (w: usize)
        ensures
            w == self.width(),
    {
        self.width
    }

    /// The frame's height in pixels.
    pub fn height_value(&self) -> (h: usize)
        ensures
            h == self.height(),
    {
        self.height
    }

    /// Returns a reference to the internal framebuffer.
    pub fn get_framebuffer(&self) -> (buf: &Vec<u32>)
        ensures
            buf@ == self@,
    {
        &self.buffer
    }

    /// Sets the entire framebuffer to 0.
    pub fn clear_buffer(&mut self)
        ensures
            final(self).wf() == old(self).wf(),
            final(self).width() == old(self).width(),
            final(self).height() == old(self).height(),
            final(self)@.len() == old(self)@.len(),
            forall|i: int| 0 <= i < final(self)@.len() ==> final(self)@[i] == 0u32,
    {
        self.clear_buffer_color(&0u32);
    }

    /// Sets the entire framebuffer to 'color'.
    pub fn clear_buffer_color(&mut self, color: &u32)
        ensures
            final(self).wf() == old(self).wf(),
            final(self).width() == old(self).width(),
            final(self).height() == old(self).height(),
            final(self)@.len() == old(self)@.len(),
            forall|i: int| 0 <= i < final(self)@.len() ==> final(self)@[i] == *color,
    {
        let mut i: usize = 0;
        while i < self.buffer.len()
            invariant
                i <= self.buffer.len(),
                self.buffer.len() == old(self).buffer.len(),
                self.width == old(self).width,
                self.height == old(self).height,
                forall|j: int| 0 <= j < i ==> self.buffer@[j] == *color,
            decreases self.buffer.len() - i,
        {
            self.buffer[i] = *color;
            i = i + 1;
        }
    }
}

} // verus!
