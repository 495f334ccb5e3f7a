//! The text that tells what happens in a battle, shown letter by letter.

use vstd::prelude::*;
use vstd::string::StringSliceAdditionalSpecFns;
use crate::strings::string_push;
use crate::strings::string_push_str;

verus! {

/// Counts the frames for which something stays on the screen.
#[derive(Clone, Copy, Debug, PartialEq, Eq, Hash, Structural)]
pub struct Timer {
    pub alive: bool,
    pub counter: u32,
    pub length: u32,
}

impl Timer {
    pub fn new(length: u32) -> (r: Timer)
        ensures
            r == (Timer { alive: false, counter: 0, length }),
    {
        Timer { alive: false, counter: 0, length }
    }

    pub fn spawn(&mut self)
        ensures
            *final(self) == (Timer { alive: true, counter: 0, length: old(self).length }),
    {
        self.alive = true;
        self.counter = 0;
    }

    pub fn despawn(&mut self)
        ensures
            *final(self) == (Timer { alive: false, counter: 0, length: old(self).length }),
    {
        self.alive = false;
        self.counter = 0;
    }

    /// Counts one frame, up to the length.
    pub fn update(&mut self)
        ensures
            *final(self) == (Timer {
                counter: if old(self).alive && old(self).counter < old(self).length {
                    (old(self).counter + 1) as u32
                } else {
                    old(self).counter
                },
                ..*old(self)
            }),
    {
        if self.alive && self.counter < self.length {
            self.counter += 1;
        }
    }

    pub fn is_alive(&self) -> (r: bool)
        ensures
            r == self.alive,
    {
        self.alive
    }

    pub fn is_finished(&self) -> (r: bool)
        ensures
            r == (self.alive && self.counter >= self.length),
    {
        self.alive && self.counter >= self.length
    }
}

/// The text of a battle. Each line appears letter by letter, one letter
/// every four calls of `update`; when the last line stands, the reader may
/// go on.
pub struct BattleText {
    pub alive: bool,
    pub x: isize,
    pub y: isize,
    pub panel_x: isize,
    pub panel_y: isize,
    pub text: Vec<String>,
    pub current_line: usize,
    pub font_id: usize,
    pub counter: u16,
    pub can_continue: bool,
    pub timer: Timer,
}

/// Four times the length of a line in bytes, as `str::len` counts them.
pub open spec fn line_ticks(line: Seq<char>) -> int {
    4 * (vstd::utf8::encode_utf8(line).len() as usize)
}

impl BattleText {
    /// There is a line under the cursor.
    pub open spec fn wf(&self) -> bool {
        self.current_line < self.text@.len()
    }

    pub open spec fn spec_is_active(&self) -> bool {
        self.alive
    }

    pub open spec fn spec_current_line(&self) -> usize {
        self.current_line
    }

    pub open spec fn spec_counter(&self) -> u16 {
        self.counter
    }

    pub open spec fn spec_panel(&self) -> (isize, isize) {
        (self.panel_x, self.panel_y)
    }

    pub fn new(_panel_x: isize, _panel_y: isize) -> (r: BattleText)
        ensures
            r.wf(),
            !r.spec_is_active(),
            r.spec_current_line() == 0,
            r.spec_counter() == 0,
            r.spec_panel() == (_panel_x, _panel_y),
            r.text@.len() == 1,
            r.text@[0]@ == "null"@,
            r.font_id == 1,
            !r.can_continue,
            r.timer == (Timer { alive: false, counter: 0, length: 60 }),
    {
        let mut text: Vec<String> = Vec::new();
        text.push("null".to_owned());
        BattleText {
            alive: false,
            x: 11,
            y: 11,
            panel_x: _panel_x,
            panel_y: _panel_y,
            text,
            font_id: 1,
            current_line: 0,
            counter: 0,
            can_continue: false,
            timer: Timer::new(60),
        }
    }

    #[verifier::when_used_as_spec(spec_is_active)]
    pub fn is_active(&self) -> (r: bool)
        ensures
            r == self.spec_is_active(),
    {
        self.alive
    }

    pub fn current_line(&self) -> (r: usize)
        ensures
            r == self.spec_current_line(),
    {
        self.current_line
    }

    pub fn counter(&self) -> (r: u16)
        ensures
            r == self.spec_counter(),
    {
        self.counter
    }

    /// Shows the text from its beginning.
    pub fn enable(&mut self)
        ensures
            final(self).spec_is_active(),
            final(self).spec_current_line() == 0,
            final(self).spec_counter() == 0,
            !final(self).can_continue,
            final(self).timer == (Timer { alive: false, counter: 0, length: old(self).timer.length }),
            final(self).text == old(self).text,
            final(self).font_id == old(self).font_id,
            final(self).spec_panel() == old(self).spec_panel(),
            old(self).text@.len() > 0 ==> final(self).wf(),
    {
        self.alive = true;
        self.reset();
    }

    pub fn disable(&mut self)
        ensures
            !final(self).spec_is_active(),
            final(self).spec_current_line() == old(self).spec_current_line(),
            final(self).spec_counter() == old(self).spec_counter(),
            final(self).can_continue == old(self).can_continue,
            final(self).timer == (Timer { alive: false, counter: 0, length: old(self).timer.length }),
            final(self).text == old(self).text,
            final(self).font_id == old(self).font_id,
            final(self).spec_panel() == old(self).spec_panel(),
            old(self).wf() ==> final(self).wf(),
    {
        self.alive = false;
        self.timer.despawn();
    }

    /// The one line "`pokemon` used `pmove`!".
    pub fn update_text(&mut self, pokemon: &String, pmove: &String)
        ensures
            final(self).text@.len() == 1,
            final(self).text@[0]@ == pokemon@ + " used "@ + pmove@ + seq!['!'],
            final(self).spec_is_active() == old(self).spec_is_active(),
            final(self).spec_current_line() == old(self).spec_current_line(),
            final(self).spec_counter() == old(self).spec_counter(),
            final(self).can_continue == old(self).can_continue,
            final(self).timer == old(self).timer,
            final(self).font_id == old(self).font_id,
            final(self).spec_panel() == old(self).spec_panel(),
    {
        let mut text = pokemon.clone();
        string_push_str(&mut text, " used ");
        string_push_str(&mut text, pmove.as_str());
        string_push(&mut text, '!');
        let mut lines: Vec<String> = Vec::new();
        lines.push(text);
        self.text = lines;
    }

    /// The one line "`pokemon` fainted!".
    pub fn update_faint(&mut self, pokemon: &String)
        ensures
            final(self).text@.len() == 1,
            final(self).text@[0]@ == pokemon@ + " fainted!"@,
            final(self).spec_is_active() == old(self).spec_is_active(),
            final(self).spec_current_line() == old(self).spec_current_line(),
            final(self).spec_counter() == old(self).spec_counter(),
            final(self).can_continue == old(self).can_continue,
            final(self).timer == old(self).timer,
            final(self).font_id == old(self).font_id,
            final(self).spec_panel() == old(self).spec_panel(),
    {
        let mut text = pokemon.clone();
        string_push_str(&mut text, " fainted!");
        let mut lines: Vec<String> = Vec::new();
        lines.push(text);
        self.text = lines;
    }

    fn reset(&mut self)
        ensures
            final(self).alive == old(self).alive,
            final(self).current_line == 0,
            final(self).counter == 0,
            !final(self).can_continue,
            final(self).timer == (Timer { alive: false, counter: 0, length: old(self).timer.length }),
            final(self).text == old(self).text,
            final(self).font_id == old(self).font_id,
            final(self).x == old(self).x,
            final(self).y == old(self).y,
            final(self).panel_x == old(self).panel_x,
            final(self).panel_y == old(self).panel_y,
    {
        self.counter = 0;
        self.current_line = 0;
        self.can_continue = false;
        self.timer.despawn();
    }

    /// Lets one frame pass. While the text is shown and the reader may not
    /// go on yet: the counter grows by one until it has passed four times
    /// the length of the line; then the next line begins, or, on the last
    /// line, the counter stays at four times its length and the reader may
    /// go on.
    pub fn update(&mut self)
        requires
            old(self).wf(),
        ensures
            final(self).wf(),
            final(self).text == old(self).text,
            final(self).font_id == old(self).font_id,
            final(self).timer == old(self).timer,
            final(self).spec_is_active() == old(self).spec_is_active(),
            final(self).spec_panel() == old(self).spec_panel(),
            (final(self).spec_current_line(), final(self).spec_counter(), final(self).can_continue)
                == old(self).ticked(),
    {
        if self.is_active() {
            if !self.can_continue {
                let line_len: u128 = (self.text[self.current_line].as_str().len() as u128) * 4;
                if (self.counter as u128) <= line_len && self.counter < u16::MAX {
                    self.counter += 1;
                } else if self.current_line < self.text.len() - 1 {
                    self.current_line += 1;
                    self.counter = 0;
                } else {
                    self.counter = if line_len < self.counter as u128 {
                        line_len as u16
                    } else {
                        self.counter
                    };
                    self.can_continue = true;
                }
            }
        }
    }

    /// The line, the counter and whether the reader may go on, after one
    /// frame.
    pub open spec fn ticked(&self) -> (usize, u16, bool) {
        if self.alive && !self.can_continue {
            let ticks = line_ticks(self.text@[self.current_line as int]@);
            if self.counter <= ticks && self.counter < u16::MAX {
                (self.current_line, (self.counter + 1) as u16, false)
            } else if self.current_line < self.text@.len() - 1 {
                ((self.current_line + 1) as usize, 0, false)
            } else {
                (self.current_line, if ticks < self.counter { ticks as u16 } else { self.counter }, true)
            }
        } else {
            (self.current_line, self.counter, self.can_continue)
        }
    }
}

} // verus!
