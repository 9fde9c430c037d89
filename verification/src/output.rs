//! Output (display) state: position, size, visible tags and usable area.

use vstd::prelude::*;
use crate::arith;
use crate::layout::LayoutType;

verus! {

/// Output identifier
pub type OutputId = usize;

/// A managed output (display)
#[derive(Debug, Clone)]
pub struct Output {
    /// Unique output ID
    pub id: OutputId,
    /// Whether the compositor's output object is attached
    pub has_rwm_output: bool,
    /// Whether the layer shell output object is attached
    pub has_layer_shell_output: bool,
    /// Global name of the wl_output
    pub wl_output_name: u32,
    /// Output name (from wl_output)
    pub name: Option<String>,
    /// Position X in global coordinates
    pub x: i32,
    /// Position Y in global coordinates
    pub y: i32,
    pub width: i32,
    pub height: i32,
    /// Output scale factor (integer)
    pub scale: i32,
    /// Current visible tags
    pub tag: u32,
    /// Main active tag
    pub main_tag: u32,
    /// Previous tag state (for switching back)
    pub prev_tag: u32,
    /// Previous main tag
    pub prev_main_tag: u32,
    /// Currently fullscreen window on this output
    pub fullscreen_window: Option<usize>,
    /// Exclusive area (for layer shell surfaces like bars)
    pub exclusive_x: i32,
    pub exclusive_y: i32,
    pub exclusive_width: i32,
    pub exclusive_height: i32,
    /// Whether a desktop background surface is attached
    pub has_desktop_surface: bool,
    /// Whether this output has been removed
    pub removed: bool,
    /// Layout used on this output
    pub layout: LayoutType,
}

/// The lowest set bit of `t` (0 when `t` is 0).
pub open spec fn lowest_bit(t: u32) -> u32 {
    t & (!t + 1) as u32
}

/// `m` has exactly one bit set.
pub open spec fn single_bit(m: u32) -> bool {
    m != 0 && m & ((m - 1) as u32) == 0
}

/// The main tag is one of the visible tags, and at least one tag is visible.
pub open spec fn tag_pair_wf(tag: u32, main: u32) -> bool {
    tag != 0 && single_bit(main) && main & tag == main
}

proof fn lemma_lowest_bit(t: u32)
    requires
        t != 0,
    ensures
        tag_pair_wf(t, lowest_bit(t)),
{
    assert(t != 0 ==> (t & (!t + 1) as u32) != 0) by (bit_vector);
    assert(t != 0 ==> (t & (!t + 1) as u32) & (((t & (!t + 1) as u32) - 1) as u32) == 0) by (bit_vector);
    assert(t != 0 ==> (t & (!t + 1) as u32) & t == (t & (!t + 1) as u32)) by (bit_vector);
}

proof fn lemma_single_bit_in(m: u32, t: u32)
    requires
        single_bit(m),
        m & t != 0,
    ensures
        m & t == m,
{
    assert((m != 0 && m & ((m - 1) as u32) == 0 && m & t != 0) ==> m & t == m) by (bit_vector);
}

fn lowest_bit_of(t: u32) -> (r: u32)
    requires
        t != 0,
    ensures
        r == lowest_bit(t),
{
    assert(t != 0 ==> !t < 0xffff_ffffu32) by (bit_vector);
    t & (!t + 1)
}

impl Output {
    /// Tags are well formed: some tag is visible and the main tag is one of
    /// them, now and in the state that switching back would restore.
    pub open spec fn tags_wf(&self) -> bool {
        tag_pair_wf(self.tag, self.main_tag) && tag_pair_wf(self.prev_tag, self.prev_main_tag)
    }

    /// Create a new output showing tag 1.
    pub fn new(id: OutputId) -> (r: Self)
        ensures
            r.id == id,
            !r.has_rwm_output && !r.has_layer_shell_output,
            r.wl_output_name == 0,
            r.name.is_none(),
            r.x == 0 && r.y == 0 && r.width == 0 && r.height == 0,
            r.scale == 1,
            r.tag == 1 && r.main_tag == 1 && r.prev_tag == 1 && r.prev_main_tag == 1,
            r.fullscreen_window.is_none(),
            r.exclusive_x == 0 && r.exclusive_y == 0 && r.exclusive_width == 0 && r.exclusive_height == 0,
            !r.has_desktop_surface && !r.removed,
            r.layout == LayoutType::Tile,
            r.tags_wf(),
    {
        let r = Output {
            id,
            has_rwm_output: false,
            has_layer_shell_output: false,
            wl_output_name: 0,
            name: None,
            x: 0,
            y: 0,
            width: 0,
            height: 0,
            scale: 1,
            tag: 1,
            main_tag: 1,
            prev_tag: 1,
            prev_main_tag: 1,
            fullscreen_window: None,
            exclusive_x: 0,
            exclusive_y: 0,
            exclusive_width: 0,
            exclusive_height: 0,
            has_desktop_surface: false,
            removed: false,
            layout: LayoutType::Tile,
        };
        assert(single_bit(1u32)) by (bit_vector);
        assert(1u32 & 1u32 == 1u32) by (bit_vector);
        r
    }

    /// The layout used on this output
    pub fn current_layout(&self) -> (r: LayoutType)
        ensures
            r == self.layout,
    {
        self.layout
    }

    /// Use `layout` on this output
    pub fn set_layout(&mut self, layout: LayoutType)
        ensures
            *final(self) == (Output { layout: layout, ..*old(self) }),
    {
        self.layout = layout;
    }

    /// Show the tags `tag`, remembering the current ones; the main tag
    /// becomes the lowest of them.  Showing no tag is refused.
    pub fn set_tag(&mut self, tag: u32)
        ensures
            tag == 0 ==> *final(self) == *old(self),
            tag != 0 ==> *final(self) == (Output {
                prev_tag: old(self).tag,
                prev_main_tag: old(self).main_tag,
                tag: tag,
                main_tag: lowest_bit(tag),
                ..*old(self)
            }),
            old(self).tags_wf() ==> final(self).tags_wf(),
    {
        if tag == 0 {
            return;
        }
        self.prev_tag = self.tag;
        self.prev_main_tag = self.main_tag;
        self.tag = tag;
        self.main_tag = lowest_bit_of(tag);
        proof {
            lemma_lowest_bit(tag);
        }
    }

    /// Toggle the tags in `mask`, unless no tag would remain visible; the
    /// main tag moves to the lowest visible tag if it was toggled off.
    pub fn toggle_tag(&mut self, mask: u32)
        ensures
            old(self).tag ^ mask == 0 ==> *final(self) == *old(self),
            old(self).tag ^ mask != 0 ==> *final(self) == (Output {
                prev_tag: old(self).tag,
                prev_main_tag: old(self).main_tag,
                tag: old(self).tag ^ mask,
                main_tag: if old(self).main_tag & (old(self).tag ^ mask) == 0 {
                    lowest_bit(old(self).tag ^ mask)
                } else {
                    old(self).main_tag
                },
                ..*old(self)
            }),
            old(self).tags_wf() ==> final(self).tags_wf(),
    {
        let new_tag = self.tag ^ mask;
        if new_tag != 0 {
            self.prev_tag = self.tag;
            self.prev_main_tag = self.main_tag;
            self.tag = new_tag;
            if (self.main_tag & new_tag) == 0 {
                self.main_tag = lowest_bit_of(new_tag);
                proof {
                    lemma_lowest_bit(new_tag);
                }
            } else {
                proof {
                    if old(self).tags_wf() {
                        lemma_single_bit_in(self.main_tag, new_tag);
                    }
                }
            }
        }
    }

    /// Swap the current tags with the previous ones.
    pub fn switch_to_previous_tag(&mut self)
        ensures
            *final(self) == switched(*old(self)),
            old(self).tags_wf() ==> final(self).tags_wf(),
    {
        std::mem::swap(&mut self.tag, &mut self.prev_tag);
        std::mem::swap(&mut self.main_tag, &mut self.prev_main_tag);
    }

    /// Get usable area (after subtracting exclusive zones): the exclusive
    /// area when it is non-empty, else the whole output.
    pub fn usable_area(&self) -> (r: (i32, i32, i32, i32))
        ensures
            self.exclusive_width > 0 && self.exclusive_height > 0 ==> r == (
                self.exclusive_x,
                self.exclusive_y,
                self.exclusive_width,
                self.exclusive_height,
            ),
            !(self.exclusive_width > 0 && self.exclusive_height > 0) ==> r == (
                self.x,
                self.y,
                self.width,
                self.height,
            ),
    {
        if self.exclusive_width > 0 && self.exclusive_height > 0 {
            (self.exclusive_x, self.exclusive_y, self.exclusive_width, self.exclusive_height)
        } else {
            (self.x, self.y, self.width, self.height)
        }
    }

    /// Update position from protocol event
    pub fn update_position(&mut self, x: i32, y: i32)
        ensures
            old(self).exclusive_width == 0 ==> *final(self) == (Output {
                x: x,
                y: y,
                exclusive_x: x,
                exclusive_y: y,
                ..*old(self)
            }),
            old(self).exclusive_width != 0 ==> *final(self) == (Output { x: x, y: y, ..*old(self) }),
    {
        self.x = x;
        self.y = y;
        if self.exclusive_width == 0 {
            self.exclusive_x = x;
            self.exclusive_y = y;
        }
    }

    /// Update dimensions from protocol event
    pub fn update_dimensions(&mut self, width: i32, height: i32)
        ensures
            old(self).exclusive_width == 0 ==> *final(self) == (Output {
                width: width,
                height: height,
                exclusive_width: width,
                exclusive_height: height,
                ..*old(self)
            }),
            old(self).exclusive_width != 0 ==> *final(self) == (Output { width: width, height: height, ..*old(self) }),
    {
        self.width = width;
        self.height = height;
        if self.exclusive_width == 0 {
            self.exclusive_width = width;
            self.exclusive_height = height;
        }
    }

    /// Update exclusive area from layer shell
    pub fn update_exclusive_area(&mut self, x: i32, y: i32, width: i32, height: i32)
        ensures
            *final(self) == (Output {
                exclusive_x: x,
                exclusive_y: y,
                exclusive_width: width,
                exclusive_height: height,
                ..*old(self)
            }),
    {
        self.exclusive_x = x;
        self.exclusive_y = y;
        self.exclusive_width = width;
        self.exclusive_height = height;
    }

    /// Whether this output should be marked as the layer shell default; the
    /// request is sent only when the layer shell output is attached.
    pub fn set_as_default(&self) -> (r: bool)
        ensures
            r == self.has_layer_shell_output,
    {
        self.has_layer_shell_output
    }

    /// Check if a point is within this output
    pub fn contains_point(&self, x: i32, y: i32) -> (r: bool)
        requires
            arith::fits_i32(self.x + self.width),
            arith::fits_i32(self.y + self.height),
        ensures
            r == (self.x <= x < self.x + self.width && self.y <= y < self.y + self.height),
    {
        x >= self.x && x < self.x + self.width && y >= self.y && y < self.y + self.height
    }
}

/// The output with its current and previous tags exchanged.
pub open spec fn switched(o: Output) -> Output {
    Output { tag: o.prev_tag, prev_tag: o.tag, main_tag: o.prev_main_tag, prev_main_tag: o.main_tag, ..o }
}

/// Switching to the previous tags twice restores the output.
pub proof fn lemma_switch_twice(o: Output)
    ensures
        switched(switched(o)) == o,
{
}

} // verus!
