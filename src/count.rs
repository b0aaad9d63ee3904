use vstd::prelude::*;
use crate::geometry::{Dimensions, Point};
use crate::lowlevel::{issued, Color, Paintbrush, Plotter};
use crate::text::{append_str, decimal, decimal_text};
use crate::text_label::TextLabel;

verus! {

/// The paintbrush of a colour-coded value: green when it went up since the
/// last render, red when it went down, the default otherwise.
pub open spec fn value_paintbrush(value: usize, last_value: usize) -> Paintbrush {
    if value > last_value {
        Paintbrush { fg: Color::Green, ..Paintbrush::spec_default() }
    } else if value < last_value {
        Paintbrush { fg: Color::Red, ..Paintbrush::spec_default() }
    } else {
        Paintbrush::spec_default()
    }
}

/// A named number on one line: a key label "name: " followed by a label
/// with the value.
pub struct Count {
    key: TextLabel,
    value_label: TextLabel,
    last_value: usize,
    value: usize,
    color_code_value: bool,
}

impl Count {
    pub closed spec fn key_label(&self) -> TextLabel {
        self.key
    }

    pub closed spec fn value_label_spec(&self) -> TextLabel {
        self.value_label
    }

    /// The current value.
    pub closed spec fn value_spec(&self) -> usize {
        self.value
    }

    /// The value at the last render.
    pub closed spec fn last_value_spec(&self) -> usize {
        self.last_value
    }

    /// Whether the value is coloured by the way it moved.
    pub closed spec fn color_coded(&self) -> bool {
        self.color_code_value
    }

    /// Both labels are well formed.
    pub open spec fn wf(&self) -> bool {
        &&& self.key_label().wf()
        &&& self.value_label_spec().wf()
    }

    /// A count at `position` of `size`: `key_width + 2` columns for the key
    /// text and ": ", the rest for the value, which starts at 0.
    pub fn new(
        paintbrush: Paintbrush,
        position: Point,
        size: Dimensions,
        key_width: usize,
        key_text: &str,
        color_code: bool,
    ) -> (r: Self)
        requires
            key_width + 2 <= size.width,
            position.x + size.width <= usize::MAX,
        ensures
            r.wf(),
            r.key_label().text_spec() == key_text@ + ": "@,
            r.key_label().position_spec() == position,
            r.key_label().size_spec() == (Dimensions { width: (key_width + 2) as usize, height: size.height }),
            r.key_label().paintbrush_spec() == paintbrush,
            r.value_label_spec().text_spec() == "0"@,
            r.value_label_spec().position_spec() == (Point { x: (position.x + key_width + 2) as usize, y: position.y }),
            r.value_label_spec().size_spec() == (Dimensions { width: (size.width - key_width - 2) as usize, height: size.height }),
            r.value_label_spec().paintbrush_spec() == paintbrush,
            r.value_spec() == 0,
            r.last_value_spec() == 0,
            r.color_coded() == color_code,
    {
        let actual_key_width = key_width + 2;
        let mut key_string = String::from_str(key_text);
        append_str(&mut key_string, ": ");
        let key_size = Dimensions { width: actual_key_width, height: size.height };
        let key = TextLabel::new(paintbrush, position, key_size, key_string.as_str());
        let value_size = Dimensions { width: size.width - actual_key_width, height: size.height };
        let value_label = TextLabel::new(
            paintbrush,
            Point { x: position.x + actual_key_width, y: position.y },
            value_size,
            "0",
        );
        Count { key, value_label, last_value: 0, value: 0, color_code_value: color_code }
    }

    /// Set the value; the next render shows it.
    pub fn update(&mut self, new_value: usize)
        ensures
            final(self).value_spec() == new_value,
            final(self).value_label_spec().wf(),
            final(self).value_label_spec().text_spec() == decimal_text(new_value as nat),
            final(self).value_label_spec().paintbrush_spec() == old(self).value_label_spec().paintbrush_spec(),
            final(self).value_label_spec().position_spec() == old(self).value_label_spec().position_spec(),
            final(self).value_label_spec().size_spec() == old(self).value_label_spec().size_spec(),
            final(self).key_label() == old(self).key_label(),
            final(self).last_value_spec() == old(self).last_value_spec(),
            final(self).color_coded() == old(self).color_coded(),
    {
        self.value = new_value;
        let text = decimal(new_value);
        self.value_label.update(text.as_str());
    }

    /// Add one to the value; the largest value stays as it is.
    pub fn increment(&mut self)
        ensures
            final(self).value_spec() == if old(self).value_spec() < usize::MAX {
                old(self).value_spec() + 1
            } else {
                old(self).value_spec() as int
            },
            final(self).last_value_spec() == old(self).last_value_spec(),
            final(self).color_coded() == old(self).color_coded(),
            final(self).value_label_spec().wf(),
            final(self).value_label_spec().text_spec() == decimal_text(final(self).value_spec() as nat),
            final(self).value_label_spec().paintbrush_spec() == old(self).value_label_spec().paintbrush_spec(),
            final(self).value_label_spec().position_spec() == old(self).value_label_spec().position_spec(),
            final(self).value_label_spec().size_spec() == old(self).value_label_spec().size_spec(),
            final(self).key_label() == old(self).key_label(),
    {
        self.update(self.value.saturating_add(1));
    }

    /// Take one from the value; zero stays zero.
    pub fn decrement(&mut self)
        ensures
            final(self).value_spec() == if old(self).value_spec() > 0 {
                old(self).value_spec() - 1
            } else {
                0
            },
            final(self).last_value_spec() == old(self).last_value_spec(),
            final(self).color_coded() == old(self).color_coded(),
            final(self).value_label_spec().wf(),
            final(self).value_label_spec().text_spec() == decimal_text(final(self).value_spec() as nat),
            final(self).value_label_spec().paintbrush_spec() == old(self).value_label_spec().paintbrush_spec(),
            final(self).value_label_spec().position_spec() == old(self).value_label_spec().position_spec(),
            final(self).value_label_spec().size_spec() == old(self).value_label_spec().size_spec(),
            final(self).key_label() == old(self).key_label(),
    {
        self.update(self.value.saturating_sub(1));
    }

    /// Plot the key label, then the value label; where the count is colour
    /// coded, the value label first takes the paintbrush that tells how the
    /// value moved since the last render. A successful render remembers the
    /// value for the next one.
    pub fn render<PlotterT: Plotter>(&mut self, plotter: &mut PlotterT) -> (r: Result<(), std::io::Error>)
        ensures
            final(self).value_spec() == old(self).value_spec(),
            final(self).color_coded() == old(self).color_coded(),
            r is Ok ==> final(self).last_value_spec() == old(self).value_spec(),
            r is Err ==> final(self).last_value_spec() == old(self).last_value_spec()
                || final(self).last_value_spec() == old(self).value_spec(),
            final(self).key_label() == old(self).key_label(),
            final(self).value_label_spec().text_spec() == old(self).value_label_spec().text_spec(),
            r is Ok && old(self).color_coded() ==> final(self).value_label_spec().paintbrush_spec()
                == value_paintbrush(old(self).value_spec(), old(self).last_value_spec()),
            !old(self).color_coded() ==> final(self).value_label_spec() == old(self).value_label_spec(),
            final(self).value_label_spec().rows() == old(self).value_label_spec().rows(),
            final(self).value_label_spec().position_spec() == old(self).value_label_spec().position_spec(),
            issued(
                old(plotter).commands(),
                final(plotter).commands(),
                old(self).key_label().commands() + final(self).value_label_spec().commands(),
                r is Ok,
            ),
    {
        let ghost start = plotter.commands();
        let ghost keyc = self.key.commands();
        match self.key.render(plotter) {
            Err(e) => {
                proof {
                    let k = choose|k: int| 0 < k <= keyc.len() && plotter.commands() == start + #[trigger] keyc.take(k);
                    assert((keyc + self.value_label.commands()).take(k) =~= keyc.take(k));
                }
                return Err(e);
            },
            Ok(()) => {},
        }
        let ghost mid = plotter.commands();
        if self.color_code_value {
            let default = Paintbrush::create_default();
            let new_paintbrush = if self.value > self.last_value {
                Paintbrush { fg: Color::Green, ..default }
            } else if self.value < self.last_value {
                Paintbrush { fg: Color::Red, ..default }
            } else {
                default
            };
            self.value_label.set_paintbrush(new_paintbrush);
        }
        self.last_value = self.value;
        let ghost valc = self.value_label.commands();
        let r = self.value_label.render(plotter);
        proof {
            if r is Ok {
                assert(plotter.commands() =~= start + (keyc + valc));
            } else {
                let k = choose|k: int| 0 < k <= valc.len() && plotter.commands() == mid + #[trigger] valc.take(k);
                assert((keyc + valc).take(keyc.len() + k) =~= keyc + valc.take(k));
                assert(plotter.commands() =~= start + (keyc + valc).take(keyc.len() + k));
            }
        }
        r
    }
}

} // verus!
