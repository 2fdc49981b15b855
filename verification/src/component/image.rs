//! The images of an entity.

use vstd::prelude::*;
use crate::resources::id::ImageID;

verus! {

/// The image of an entity and the layer on which it is drawn.
#[derive(Debug, Clone, Copy, PartialEq, Eq, Structural)]
pub struct Image {
    pub id: ImageID,
    pub depth: u32,
}

/// One state of an entity and the image that shows it.
#[derive(Debug)]
pub struct ImageStateEntry {
    pub name: String,
    pub image: ImageID,
}

/// The states of an entity that differ in their image, and the state that
/// it is in.
#[derive(Debug)]
pub struct ImageState {
    pub current: String,
    pub states: Vec<ImageStateEntry>,
}

/// What callers see of an `ImageState`: the name of the current state, and
/// the states in their order, each as its name and its image.
pub struct ImageStateView {
    pub current: Seq<char>,
    pub states: Seq<(Seq<char>, ImageID)>,
}

/// The image of the first state of `states` that is called `name`.
pub open spec fn image_of_state(states: Seq<(Seq<char>, ImageID)>, name: Seq<char>) -> Option<
    ImageID,
>
    decreases states.len(),
{
    if states.len() == 0 {
        None
    } else if states[0].0 == name {
        Some(states[0].1)
    } else {
        image_of_state(states.drop_first(), name)
    }
}

impl View for ImageState {
    type V = ImageStateView;

    open spec fn view(&self) -> ImageStateView {
        ImageStateView {
            current: self.current@,
            states: Seq::new(
                self.states@.len(),
                |i: int| (self.states@[i].name@, self.states@[i].image),
            ),
        }
    }
}

impl ImageState {
    /// No states, and the empty name as the current state.
    pub fn new() -> (s: ImageState)
        ensures
            s@.current == Seq::<char>::empty(),
            s@.states == Seq::<(Seq<char>, ImageID)>::empty(),
    {
        let s = ImageState { current: String::new(), states: Vec::new() };
        assert(s@.states =~= Seq::<(Seq<char>, ImageID)>::empty());
        s
    }

    /// Adds the state `name` with `image` behind the states that are there.
    pub fn add_state(&mut self, name: &str, image: ImageID)
        ensures
            final(self)@.current == old(self)@.current,
            final(self)@.states == old(self)@.states.push((name@, image)),
    {
        self.states.push(ImageStateEntry { name: String::from_str(name), image });
        assert(self@.states =~= old(self)@.states.push((name@, image)));
    }

    /// The image of the state `name`, if the entity has that state.
    pub fn image_of(&self, name: &str) -> (image: Option<ImageID>)
        ensures
            image == image_of_state(self@.states, name@),
    {
        let wanted = String::from_str(name);
        let mut i: usize = 0;
        assert(self@.states.subrange(0, self@.states.len() as int) =~= self@.states);
        while i < self.states.len()
            invariant
                i <= self.states@.len(),
                wanted@ == name@,
                image_of_state(self@.states, name@) == image_of_state(
                    self@.states.subrange(i as int, self@.states.len() as int),
                    name@,
                ),
            decreases self.states@.len() - i,
        {
            let ghost rest = self@.states.subrange(i as int, self@.states.len() as int);
            assert(rest[0] == self@.states[i as int]);
            assert(rest.drop_first() =~= self@.states.subrange(
                i as int + 1,
                self@.states.len() as int,
            ));
            if self.states[i].name == wanted {
                return Some(self.states[i].image);
            }
            i = i + 1;
        }
        assert(self@.states.subrange(i as int, self@.states.len() as int).len() == 0);
        None
    }

    /// A copy with the same view.
    pub fn duplicate(&self) -> (s: ImageState)
        ensures
            s@ == self@,
    {
        let mut states: Vec<ImageStateEntry> = Vec::new();
        let mut i: usize = 0;
        while i < self.states.len()
            invariant
                i <= self.states@.len(),
                states@.len() == i,
                forall|j: int|
                    0 <= j < i ==> states@[j].name@ == self.states@[j].name@ && states@[j].image
                        == self.states@[j].image,
            decreases self.states@.len() - i,
        {
            states.push(
                ImageStateEntry { name: self.states[i].name.clone(), image: self.states[i].image },
            );
            i = i + 1;
        }
        let s = ImageState { current: self.current.clone(), states };
        assert(s@.states =~= self@.states);
        s
    }
}

impl Clone for ImageState {
    fn clone(&self) -> (s: ImageState)
        ensures
            s@ == self@,
    {
        self.duplicate()
    }
}

impl Default for ImageState {
    fn default() -> (s: ImageState)
        ensures
            s@.current == Seq::<char>::empty(),
            s@.states == Seq::<(Seq<char>, ImageID)>::empty(),
    {
        ImageState::new()
    }
}

} // verus!
