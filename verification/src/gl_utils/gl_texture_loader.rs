//! Which textures have been loaded already.

use vstd::prelude::*;
use std::collections::HashMap;
use super::gl_texture::{Texture, TextureView};

verus! {

broadcast use vstd::std_specs::hash::group_hash_axioms;

/// Keeps track of the texture units whose textures have been loaded, so
/// that each is loaded once.
pub struct TextureLoader {
    loaded_textures: HashMap<u32, bool>,
}

impl View for TextureLoader {
    type V = Map<u32, bool>;

    closed spec fn view(&self) -> Map<u32, bool> {
        self.loaded_textures@
    }
}

/// Whether the texture `texture` has to be loaded, given what `loaded`
/// says: it names a unit, and that unit is not marked as loaded.
pub open spec fn must_load(loaded: Map<u32, bool>, texture: TextureView) -> bool {
    texture.texture_id >= 0 && !(loaded.contains_key(texture.texture_id as u32)
        && loaded[texture.texture_id as u32])
}

/// `loaded` after the texture `texture` was seen: its unit is marked.
pub open spec fn marked(loaded: Map<u32, bool>, texture: TextureView) -> Map<u32, bool> {
    if texture.texture_id >= 0 {
        loaded.insert(texture.texture_id as u32, true)
    } else {
        loaded
    }
}

/// `loaded` after the first `n` of `textures` were seen.
pub open spec fn marked_upto(loaded: Map<u32, bool>, textures: Seq<TextureView>, n: int) -> Map<
    u32,
    bool,
>
    decreases n,
{
    if n <= 0 {
        loaded
    } else {
        marked(marked_upto(loaded, textures, n - 1), textures[n - 1])
    }
}

/// The places among the first `n` of `textures` of those that have to be
/// loaded when they are seen in order.
pub open spec fn due_upto(loaded: Map<u32, bool>, textures: Seq<TextureView>, n: int) -> Seq<
    usize,
>
    decreases n,
{
    if n <= 0 {
        Seq::empty()
    } else if must_load(marked_upto(loaded, textures, n - 1), textures[n - 1]) {
        due_upto(loaded, textures, n - 1).push((n - 1) as usize)
    } else {
        due_upto(loaded, textures, n - 1)
    }
}

/// The textures of `textures` as plain values.
pub open spec fn texture_views(textures: Seq<Texture>) -> Seq<TextureView> {
    Seq::new(textures.len(), |i: int| textures[i]@)
}

impl TextureLoader {
    /// A loader that has seen no texture.
    pub fn new() -> (res: TextureLoader)
        ensures
            res@ == Map::<u32, bool>::empty(),
    {
        TextureLoader { loaded_textures: HashMap::new() }
    }

    /// Tells whether `texture` has to be loaded now, and marks its unit
    /// as loaded. The texture that stands for none is never loaded.
    pub fn load_texture(&mut self, texture: &Texture) -> (res: bool)
        ensures
            res == must_load(old(self)@, texture@),
            final(self)@ == marked(old(self)@, texture@),
    {
        let texture_id = texture.get_texture_id();
        if texture_id < 0 {
            return false;
        }
        let unit = texture_id as u32;
        let loaded = match self.loaded_textures.get(&unit) {
            Some(flag) => *flag,
            None => false,
        };
        self.loaded_textures.insert(unit, true);
        !loaded
    }

    /// Sees `textures` in order and returns the places of those that have
    /// to be loaded now.
    pub fn load_textures(&mut self, textures: &Vec<Texture>) -> (res: Vec<usize>)
        ensures
            res@ == due_upto(old(self)@, texture_views(textures@), textures@.len() as int),
            final(self)@ == marked_upto(old(self)@, texture_views(textures@), textures@.len() as int),
    {
        let ghost views = texture_views(textures@);
        let mut due: Vec<usize> = Vec::new();
        let mut i: usize = 0;
        while i < textures.len()
            invariant
                0 <= i <= textures.len(),
                views == texture_views(textures@),
                views.len() == textures@.len(),
                due@ == due_upto(old(self)@, views, i as int),
                self@ == marked_upto(old(self)@, views, i as int),
            decreases textures.len() - i,
        {
            assert(views[i as int] == textures@[i as int]@);
            if self.load_texture(&textures[i]) {
                due.push(i);
            }
            i = i + 1;
        }
        due
    }
}

} // verus!
