//! Edge-triggered decoding of raw key-state bitmaps.
//!
//! Several named buttons live on a small set of input-event files; one
//! poll reads each file's full key-state bitmap, where bit `N` carries the
//! pressed state of kernel key code `N`.  The registration table, the
//! decoded pressed set and the transition events between two polls are
//! computed here; opening the files, issuing the ioctl and invoking the
//! per-button callbacks belong to the caller.

use vstd::prelude::*;

verus! {

/// Size in bytes of a key-state bitmap.
pub const KEY_BUF_LEN: usize = 96;

/// One registered button: a name bound to a key code within one input
/// file.
#[derive(Debug)]
pub struct ButtonRegistration {
    /// Button name.
    pub name: String,
    /// Index of the input file in the reader's file table.
    pub file_index: usize,
    /// Kernel key code within that file's bitmap.
    pub key_code: u32,
}

/// Ghost image of a [`ButtonRegistration`].
pub ghost struct ButtonRegistrationView {
    /// Button name.
    pub name: Seq<char>,
    /// Index of the input file.
    pub file_index: int,
    /// Kernel key code.
    pub key_code: int,
}

impl View for ButtonRegistration {
    type V = ButtonRegistrationView;

    open spec fn view(&self) -> ButtonRegistrationView {
        ButtonRegistrationView {
            name: self.name@,
            file_index: self.file_index as int,
            key_code: self.key_code as int,
        }
    }
}

/// The single-bit mask for a position within a byte.
pub open spec fn key_mask(rem: int) -> u8 {
    if rem == 0 {
        1
    } else if rem == 1 {
        2
    } else if rem == 2 {
        4
    } else if rem == 3 {
        8
    } else if rem == 4 {
        16
    } else if rem == 5 {
        32
    } else if rem == 6 {
        64
    } else {
        128
    }
}

/// Bit `key_code` of the bitmap: byte `key_code / 8`, bit `key_code % 8`.
pub open spec fn bit_is_set(buf: Seq<u8>, key_code: int) -> bool {
    buf[key_code / 8] & key_mask(key_code % 8) != 0
}

/// Tests bit `key_code` of a key-state bitmap.
pub fn test_bit(buffer: &Vec<u8>, key_code: u32) -> (r: bool)
    requires
        key_code / 8 < buffer@.len(),
    ensures
        r == bit_is_set(buffer@, key_code as int),
{
    let rem = key_code % 8;
    let mask: u8 = if rem == 0 {
        1
    } else if rem == 1 {
        2
    } else if rem == 2 {
        4
    } else if rem == 3 {
        8
    } else if rem == 4 {
        16
    } else if rem == 5 {
        32
    } else if rem == 6 {
        64
    } else {
        128
    };
    (buffer[(key_code / 8) as usize] & mask) != 0
}

/// The transition events between two pressed vectors: for every button
/// whose state flipped, its name with the new state, in registration
/// order.
pub open spec fn transition_events(
    buttons: Seq<ButtonRegistrationView>,
    old_pressed: Seq<bool>,
    new_pressed: Seq<bool>,
) -> Seq<(Seq<char>, bool)>
    decreases buttons.len(),
{
    if buttons.len() == 0 {
        Seq::empty()
    } else {
        let rest = transition_events(
            buttons.drop_last(),
            old_pressed.drop_last(),
            new_pressed.drop_last(),
        );
        if old_pressed.last() != new_pressed.last() {
            rest.push((buttons.last().name, new_pressed.last()))
        } else {
            rest
        }
    }
}

/// An unchanged pressed vector produces no transition events: polling
/// twice over an unchanged bitmap invokes no callback the second time.
pub proof fn lemma_no_change_no_events(buttons: Seq<ButtonRegistrationView>, pressed: Seq<bool>)
    ensures
        transition_events(buttons, pressed, pressed) == Seq::<(Seq<char>, bool)>::empty(),
    decreases buttons.len(),
{
    if buttons.len() > 0 {
        lemma_no_change_no_events(buttons.drop_last(), pressed.drop_last());
    }
}

/// The registration table and current pressed set of a key-state reader.
#[derive(Debug)]
pub struct ButtonSet {
    file_paths: Vec<String>,
    buttons: Vec<ButtonRegistration>,
    pressed: Vec<bool>,
}

impl ButtonSet {
    /// Paths of the distinct input files, in first-use order.
    pub closed spec fn spec_file_paths(&self) -> Seq<Seq<char>> {
        self.file_paths@.map_values(|p: String| p@)
    }

    /// The registered buttons, in registration order.
    pub closed spec fn spec_buttons(&self) -> Seq<ButtonRegistrationView> {
        self.buttons@.map_values(|b: ButtonRegistration| b@)
    }

    /// Pressed state per registered button.
    pub closed spec fn spec_pressed(&self) -> Seq<bool> {
        self.pressed@
    }

    /// Well-formedness: one pressed flag per button, file indices within
    /// the file table, key codes within the bitmap, and names and paths
    /// unique.
    pub closed spec fn wf(&self) -> bool {
        &&& self.pressed@.len() == self.buttons@.len()
        &&& forall|i: int|
            0 <= i < self.spec_buttons().len() ==> (#[trigger] self.spec_buttons()[i]).file_index
                < self.spec_file_paths().len()
        &&& forall|i: int|
            0 <= i < self.spec_buttons().len() ==> (#[trigger] self.spec_buttons()[i]).key_code < 8
                * KEY_BUF_LEN
        &&& forall|i: int, j: int|
            0 <= i < j < self.spec_buttons().len() ==> (#[trigger] self.spec_buttons()[i]).name != (
            #[trigger] self.spec_buttons()[j]).name
        &&& forall|i: int, j: int|
            0 <= i < j < self.spec_file_paths().len() ==> #[trigger] self.spec_file_paths()[i]
                != #[trigger] self.spec_file_paths()[j]
    }

    /// Creates an empty reader state.
    pub fn new() -> (r: ButtonSet)
        ensures
            r.wf(),
            r.spec_file_paths().len() == 0,
            r.spec_buttons().len() == 0,
    {
        let r = ButtonSet { file_paths: Vec::new(), buttons: Vec::new(), pressed: Vec::new() };
        proof {
            assert(r.spec_file_paths() =~= Seq::<Seq<char>>::empty());
            assert(r.spec_buttons() =~= Seq::<ButtonRegistrationView>::empty());
        }
        r
    }

    /// Number of distinct input files registered so far.
    pub fn file_count(&self) -> (r: usize)
        ensures
            r == self.spec_file_paths().len(),
    {
        self.file_paths.len()
    }

    /// Path of the input file at `index` in the file table.
    pub fn file_path_at(&self, index: usize) -> (r: String)
        requires
            index < self.spec_file_paths().len(),
        ensures
            r@ == self.spec_file_paths()[index as int],
    {
        self.file_paths[index].clone()
    }

    fn find_file(&self, file_name: &str) -> (r: Option<usize>)
        ensures
            r matches Some(i) ==> i < self.spec_file_paths().len() && self.spec_file_paths()[i as int]
                == file_name@,
            r is None ==> forall|k: int|
                0 <= k < self.spec_file_paths().len() ==> self.spec_file_paths()[k] != file_name@,
    {
        let mut i: usize = 0;
        while i < self.file_paths.len()
            invariant
                0 <= i <= self.file_paths@.len(),
                forall|k: int| 0 <= k < i ==> self.spec_file_paths()[k] != file_name@,
            decreases self.file_paths@.len() - i,
        {
            if crate::text::string_eq_str(&self.file_paths[i], file_name) {
                assert(self.spec_file_paths()[i as int] == file_name@);
                return Some(i);
            }
            i = i + 1;
        }
        None
    }

    fn find_button(&self, name: &str) -> (r: Option<usize>)
        ensures
            r matches Some(i) ==> i < self.spec_buttons().len() && self.spec_buttons()[i as int].name
                == name@,
            r is None ==> forall|k: int|
                0 <= k < self.spec_buttons().len() ==> (#[trigger] self.spec_buttons()[k]).name
                    != name@,
    {
        let mut i: usize = 0;
        while i < self.buttons.len()
            invariant
                0 <= i <= self.buttons@.len(),
                forall|k: int| 0 <= k < i ==> (#[trigger] self.spec_buttons()[k]).name != name@,
            decreases self.buttons@.len() - i,
        {
            if crate::text::string_eq_str(&self.buttons[i].name, name) {
                assert(self.spec_buttons()[i as int].name == name@);
                return Some(i);
            }
            i = i + 1;
        }
        None
    }

    /// Registers the button `name` as key code `key_code` within the file
    /// `file_name`.  A new path extends the file table; a known name is
    /// re-bound in place, keeping its pressed state until the next poll.
    /// Returns the file-table index the button was bound to.
    pub fn add_button(&mut self, name: &str, file_name: &str, key_code: u32) -> (r: usize)
        requires
            old(self).wf(),
            key_code < 768,
        ensures
            final(self).wf(),
            r < final(self).spec_file_paths().len(),
            final(self).spec_file_paths()[r as int] == file_name@,
            (exists|k: int|
                0 <= k < old(self).spec_file_paths().len() && old(self).spec_file_paths()[k]
                    == file_name@) ==> final(self).spec_file_paths() == old(
                self,
            ).spec_file_paths(),
            !(exists|k: int|
                0 <= k < old(self).spec_file_paths().len() && old(self).spec_file_paths()[k]
                    == file_name@) ==> final(self).spec_file_paths() == old(
                self,
            ).spec_file_paths().push(file_name@),
            (exists|j: int|
                0 <= j < old(self).spec_buttons().len() && (#[trigger] old(
                    self,
                ).spec_buttons()[j]).name == name@) ==> exists|j: int|
                {
                    &&& 0 <= j < old(self).spec_buttons().len()
                    &&& (#[trigger] old(self).spec_buttons()[j]).name == name@
                    &&& final(self).spec_buttons() == old(self).spec_buttons().update(
                        j,
                        ButtonRegistrationView {
                            name: name@,
                            file_index: r as int,
                            key_code: key_code as int,
                        },
                    )
                    &&& final(self).spec_pressed() == old(self).spec_pressed()
                },
            !(exists|j: int|
                0 <= j < old(self).spec_buttons().len() && (#[trigger] old(
                    self,
                ).spec_buttons()[j]).name == name@) ==> (final(self).spec_buttons() == old(
                self,
            ).spec_buttons().push(
                ButtonRegistrationView {
                    name: name@,
                    file_index: r as int,
                    key_code: key_code as int,
                },
            ) && final(self).spec_pressed() == old(self).spec_pressed().push(false)),
    {
        let ghost old_paths = self.spec_file_paths();
        let file_index: usize = match self.find_file(file_name) {
            Some(i) => i,
            None => {
                self.file_paths.push(file_name.to_owned());
                proof {
                    assert(self.spec_file_paths() =~= old_paths.push(file_name@));
                }
                self.file_paths.len() - 1
            },
        };
        proof {
            assert(self.spec_file_paths().len() >= old_paths.len());
            assert(forall|k: int|
                0 <= k < old_paths.len() ==> #[trigger] self.spec_file_paths()[k] == old_paths[k]);
            assert(file_index < self.spec_file_paths().len());
            assert(self.spec_file_paths()[file_index as int] == file_name@);
        }
        let reg = ButtonRegistration { name: name.to_owned(), file_index, key_code };
        let ghost old_buttons = self.spec_buttons();
        let ghost new_reg = ButtonRegistrationView {
            name: name@,
            file_index: file_index as int,
            key_code: key_code as int,
        };
        proof {
            assert(old_buttons == old(self).spec_buttons());
        }
        match self.find_button(name) {
            Some(j) => {
                proof {
                    assert(old_buttons[j as int].name == name@);
                }
                self.buttons.set(j, reg);
                proof {
                    assert(self.spec_buttons() =~= old_buttons.update(j as int, new_reg));
                    assert((#[trigger] self.spec_buttons()[j as int]) == new_reg);
                    assert forall|i: int| 0 <= i < self.spec_buttons().len() implies (
                    #[trigger] self.spec_buttons()[i]).name == old_buttons[i].name by {
                        assert(self.spec_buttons()[i] == if i == j {
                            new_reg
                        } else {
                            old_buttons[i]
                        });
                    }
                    assert forall|a: int, b: int|
                        0 <= a < b < self.spec_buttons().len() implies (
                    #[trigger] self.spec_buttons()[a]).name != (
                    #[trigger] self.spec_buttons()[b]).name by {
                        assert(old(self).spec_buttons()[a].name != old(self).spec_buttons()[
                            b].name);
                    }
                    assert forall|i: int| 0 <= i < self.spec_buttons().len() implies (
                    #[trigger] self.spec_buttons()[i]).file_index
                        < self.spec_file_paths().len() by {
                        if i != j {
                            assert(self.spec_buttons()[i] == old_buttons[i]);
                            assert(old(self).spec_buttons()[i].file_index < old_paths.len());
                        }
                    }
                    assert forall|i: int| 0 <= i < self.spec_buttons().len() implies (
                    #[trigger] self.spec_buttons()[i]).key_code < 8 * KEY_BUF_LEN by {
                        if i != j {
                            assert(self.spec_buttons()[i] == old_buttons[i]);
                            assert(old(self).spec_buttons()[i].key_code < 8 * KEY_BUF_LEN);
                        }
                    }
                }
            },
            None => {
                self.buttons.push(reg);
                self.pressed.push(false);
                proof {
                    assert(self.spec_buttons() =~= old_buttons.push(new_reg));
                    assert((#[trigger] self.spec_buttons()[old_buttons.len() as int]) == new_reg);
                    assert forall|a: int, b: int|
                        0 <= a < b < self.spec_buttons().len() implies (
                    #[trigger] self.spec_buttons()[a]).name != (
                    #[trigger] self.spec_buttons()[b]).name by {
                        if b < old_buttons.len() {
                            assert(old(self).spec_buttons()[a].name != old(self).spec_buttons()[
                                b].name);
                        } else {
                            assert(self.spec_buttons()[b] == new_reg);
                            assert((#[trigger] old(self).spec_buttons()[a]).name != name@);
                        }
                    }
                    assert forall|i: int| 0 <= i < self.spec_buttons().len() implies (
                    #[trigger] self.spec_buttons()[i]).file_index
                        < self.spec_file_paths().len() by {
                        if i < old_buttons.len() {
                            assert(self.spec_buttons()[i] == old_buttons[i]);
                            assert(old(self).spec_buttons()[i].file_index < old_paths.len());
                        }
                    }
                    assert forall|i: int| 0 <= i < self.spec_buttons().len() implies (
                    #[trigger] self.spec_buttons()[i]).key_code < 8 * KEY_BUF_LEN by {
                        if i < old_buttons.len() {
                            assert(self.spec_buttons()[i] == old_buttons[i]);
                            assert(old(self).spec_buttons()[i].key_code < 8 * KEY_BUF_LEN);
                        }
                    }
                }
            },
        }
        file_index
    }

    /// One poll: `buffers[i]` is the bitmap the ioctl filled for file `i`
    /// of the file table.  Recomputes the pressed state of every button
    /// from its bit and returns the transition events — each button whose
    /// state flipped, with its new state — in registration order.
    pub fn process(&mut self, buffers: &Vec<Vec<u8>>) -> (events: Vec<(String, bool)>)
        requires
            old(self).wf(),
            buffers@.len() == old(self).spec_file_paths().len(),
            forall|i: int| 0 <= i < buffers@.len() ==> (#[trigger] buffers@[i])@.len() == KEY_BUF_LEN,
        ensures
            final(self).wf(),
            final(self).spec_buttons() == old(self).spec_buttons(),
            final(self).spec_file_paths() == old(self).spec_file_paths(),
            final(self).spec_pressed().len() == final(self).spec_buttons().len(),
            forall|i: int|
                0 <= i < final(self).spec_buttons().len() ==> final(self).spec_pressed()[i]
                    == bit_is_set(
                    buffers@[(#[trigger] final(self).spec_buttons()[i]).file_index]@,
                    final(self).spec_buttons()[i].key_code,
                ),
            events@.map_values(|e: (String, bool)| (e.0@, e.1)) == transition_events(
                old(self).spec_buttons(),
                old(self).spec_pressed(),
                final(self).spec_pressed(),
            ),
    {
        let ghost bv = self.spec_buttons();
        let mut new_pressed: Vec<bool> = Vec::new();
        let mut i: usize = 0;
        while i < self.buttons.len()
            invariant
                bv == self.spec_buttons(),
                self.wf(),
                buffers@.len() == self.spec_file_paths().len(),
                forall|k: int|
                    0 <= k < buffers@.len() ==> (#[trigger] buffers@[k])@.len() == KEY_BUF_LEN,
                0 <= i <= self.buttons@.len(),
                new_pressed@.len() == i,
                forall|k: int|
                    0 <= k < i ==> new_pressed@[k] == bit_is_set(
                        buffers@[(#[trigger] bv[k]).file_index]@,
                        bv[k].key_code,
                    ),
            decreases self.buttons@.len() - i,
        {
            let b = &self.buttons[i];
            proof {
                assert(bv[i as int] == self.buttons@[i as int]@);
                assert((#[trigger] bv[i as int]).file_index < self.spec_file_paths().len());
                assert(bv[i as int].key_code < 8 * KEY_BUF_LEN);
                assert(buffers@[bv[i as int].file_index]@.len() == KEY_BUF_LEN);
                assert(b.key_code / 8 < KEY_BUF_LEN);
            }
            let bit = test_bit(&buffers[b.file_index], b.key_code);
            new_pressed.push(bit);
            i = i + 1;
        }
        let mut events: Vec<(String, bool)> = Vec::new();
        let mut j: usize = 0;
        proof {
            assert(events@.map_values(|e: (String, bool)| (e.0@, e.1)) =~= transition_events(
                bv.take(0),
                self.pressed@.take(0),
                new_pressed@.take(0),
            ));
        }
        while j < self.buttons.len()
            invariant
                bv == self.spec_buttons(),
                self.wf(),
                0 <= j <= self.buttons@.len(),
                new_pressed@.len() == self.buttons@.len(),
                events@.map_values(|e: (String, bool)| (e.0@, e.1)) == transition_events(
                    bv.take(j as int),
                    self.pressed@.take(j as int),
                    new_pressed@.take(j as int),
                ),
            decreases self.buttons@.len() - j,
        {
            proof {
                assert(bv.take(j + 1).drop_last() =~= bv.take(j as int));
                assert(self.pressed@.take(j + 1).drop_last() =~= self.pressed@.take(j as int));
                assert(new_pressed@.take(j + 1).drop_last() =~= new_pressed@.take(j as int));
                assert(bv.take(j + 1).last() == bv[j as int]);
            }
            if self.pressed[j] != new_pressed[j] {
                let ghost prev = events@;
                events.push((self.buttons[j].name.clone(), new_pressed[j]));
                proof {
                    assert(events@.map_values(|e: (String, bool)| (e.0@, e.1)) =~= prev.map_values(
                        |e: (String, bool)| (e.0@, e.1),
                    ).push((bv[j as int].name, new_pressed@[j as int])));
                }
            }
            j = j + 1;
        }
        proof {
            assert(bv.take(bv.len() as int) =~= bv);
            assert(self.pressed@.take(self.pressed@.len() as int) =~= self.pressed@);
            assert(new_pressed@.take(new_pressed@.len() as int) =~= new_pressed@);
        }
        self.pressed = new_pressed;
        events
    }

    /// Whether the button `name` is pressed.
    pub fn get_button_state(&self, name: &str) -> (r: bool)
        requires
            self.wf(),
        ensures
            r == exists|i: int|
                0 <= i < self.spec_buttons().len() && (#[trigger] self.spec_buttons()[i]).name
                    == name@ && self.spec_pressed()[i],
    {
        let mut i: usize = 0;
        while i < self.buttons.len()
            invariant
                self.wf(),
                0 <= i <= self.buttons@.len(),
                forall|k: int|
                    0 <= k < i ==> !((#[trigger] self.spec_buttons()[k]).name == name@
                        && self.spec_pressed()[k]),
            decreases self.buttons@.len() - i,
        {
            if crate::text::string_eq_str(&self.buttons[i].name, name) {
                if self.pressed[i] {
                    assert(self.spec_buttons()[i as int].name == name@
                        && self.spec_pressed()[i as int]);
                    return true;
                }
                assert(!(self.spec_buttons()[i as int].name == name@
                    && self.spec_pressed()[i as int]));
            }
            i = i + 1;
        }
        false
    }

    /// The names of the currently pressed buttons, in registration order.
    pub fn get_pressed_buttons(&self) -> (r: Vec<String>)
        requires
            self.wf(),
        ensures
            r@.map_values(|s: String| s@) == pressed_names(
                self.spec_buttons(),
                self.spec_pressed(),
            ),
    {
        let mut out: Vec<String> = Vec::new();
        let mut i: usize = 0;
        proof {
            assert(out@.map_values(|s: String| s@) =~= pressed_names(
                self.spec_buttons().take(0),
                self.spec_pressed().take(0),
            ));
        }
        while i < self.buttons.len()
            invariant
                self.wf(),
                0 <= i <= self.buttons@.len(),
                out@.map_values(|s: String| s@) == pressed_names(
                    self.spec_buttons().take(i as int),
                    self.spec_pressed().take(i as int),
                ),
            decreases self.buttons@.len() - i,
        {
            proof {
                assert(self.spec_buttons().take(i + 1).drop_last() =~= self.spec_buttons().take(
                    i as int,
                ));
                assert(self.spec_pressed().take(i + 1).drop_last() =~= self.spec_pressed().take(
                    i as int,
                ));
                assert(self.spec_buttons().take(i + 1).last() == self.spec_buttons()[i as int]);
            }
            if self.pressed[i] {
                let ghost prev = out@;
                out.push(self.buttons[i].name.clone());
                proof {
                    assert(out@.map_values(|s: String| s@) =~= prev.map_values(
                        |s: String| s@,
                    ).push(self.spec_buttons()[i as int].name));
                }
            }
            i = i + 1;
        }
        proof {
            assert(self.spec_buttons().take(self.spec_buttons().len() as int)
                =~= self.spec_buttons());
            assert(self.spec_pressed().take(self.spec_pressed().len() as int)
                =~= self.spec_pressed());
        }
        out
    }
}

/// Names of the pressed buttons, in registration order.
pub open spec fn pressed_names(buttons: Seq<ButtonRegistrationView>, pressed: Seq<bool>) -> Seq<
    Seq<char>,
>
    decreases buttons.len(),
{
    if buttons.len() == 0 {
        Seq::empty()
    } else {
        let rest = pressed_names(buttons.drop_last(), pressed.drop_last());
        if pressed.last() {
            rest.push(buttons.last().name)
        } else {
            rest
        }
    }
}

} // verus!
