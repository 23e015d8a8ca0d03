//! Settings and tables that the engine is given: where its assets lie, how
//! long each recording is, what a save slot holds.

use crate::assoc::{get, lookup, put, upsert};
use crate::overlay::{declare, declared_at, Overlay};
use vstd::prelude::*;
use vstd::string::StringExecFns;

verus! {

/// The directories of the assets, each written so that a file name can follow.
#[derive(Debug)]
pub struct InitializeConfig {
    pub script_path: String,
    pub background_path: String,
    pub voice_path: String,
    pub bgm_path: String,
    pub figure_path: String,
    pub save_path: String,
}

/// The characters that have figures and voices.
#[derive(Debug)]
pub struct Character {
    pub list: Vec<String>,
}

/// The configuration of the engine.
#[derive(Debug)]
pub struct EngineConfig {
    pub initialize: InitializeConfig,
    pub character: Character,
}

impl EngineConfig {
    /// A configuration with the given directories and characters.
    pub fn new(initialize: InitializeConfig, character: Character) -> (r: Self)
        ensures
            r.initialize == initialize,
            r.character == character,
    {
        EngineConfig { initialize, character }
    }

    /// Where the scripts lie.
    pub fn script_path(&self) -> (r: &str)
        ensures
            r@ == self.initialize.script_path@,
    {
        self.initialize.script_path.as_str()
    }

    /// Where the background images lie.
    pub fn background_path(&self) -> (r: &str)
        ensures
            r@ == self.initialize.background_path@,
    {
        self.initialize.background_path.as_str()
    }

    /// Where the voice recordings lie.
    pub fn voice_path(&self) -> (r: &str)
        ensures
            r@ == self.initialize.voice_path@,
    {
        self.initialize.voice_path.as_str()
    }

    /// Where the music lies.
    pub fn bgm_path(&self) -> (r: &str)
        ensures
            r@ == self.initialize.bgm_path@,
    {
        self.initialize.bgm_path.as_str()
    }

    /// Where the figures lie.
    pub fn figure_path(&self) -> (r: &str)
        ensures
            r@ == self.initialize.figure_path@,
    {
        self.initialize.figure_path.as_str()
    }

    /// Where the save slots and the user's settings lie.
    pub fn save_path(&self) -> (r: &str)
        ensures
            r@ == self.initialize.save_path@,
    {
        self.initialize.save_path.as_str()
    }

    /// The file of the script `name`.
    pub fn script_file(&self, name: &str) -> (r: String)
        ensures
            r@ == self.initialize.script_path@ + name@ + ".reg"@,
    {
        let mut r = self.initialize.script_path.clone();
        r.append(name);
        r.append(".reg");
        r
    }

    /// The file of the background image `name`.
    pub fn background_file(&self, name: &str) -> (r: String)
        ensures
            r@ == self.initialize.background_path@ + name@ + ".png"@,
    {
        let mut r = self.initialize.background_path.clone();
        r.append(name);
        r.append(".png");
        r
    }

    /// The file of the track `name`.
    pub fn bgm_file(&self, name: &str) -> (r: String)
        ensures
            r@ == self.initialize.bgm_path@ + name@ + ".ogg"@,
    {
        let mut r = self.initialize.bgm_path.clone();
        r.append(name);
        r.append(".ogg");
        r
    }

    /// The file of the clip `voice` of the character `name`.
    pub fn voice_file(&self, name: &str, voice: &str) -> (r: String)
        ensures
            r@ == self.initialize.voice_path@ + "/"@ + name@ + "/"@ + voice@ + ".ogg"@,
    {
        let mut r = self.initialize.voice_path.clone();
        r.append("/");
        r.append(name);
        r.append("/");
        r.append(voice);
        r.append(".ogg");
        r
    }

    /// The file of the picture `part`, a body or a face, of the character
    /// `name` at `distance`.
    pub fn figure_file(&self, name: &str, distance: &str, part: &str) -> (r: String)
        ensures
            r@ == self.initialize.figure_path@ + name@ + "/"@ + distance@ + "/"@ + part@ + ".png"@,
    {
        let mut r = self.initialize.figure_path.clone();
        r.append(name);
        r.append("/");
        r.append(distance);
        r.append("/");
        r.append(part);
        r.append(".png");
        r
    }

    /// The characters, in the order in which they are listed.
    pub fn characters(&self) -> (r: &Vec<String>)
        ensures
            r == &self.character.list,
    {
        &self.character.list
    }
}

/// How far the gallery has been unlocked.
#[derive(Debug, Clone, Copy, PartialEq, Eq, Structural)]
pub struct CgConfig {
    pub cg: u64,
}

impl CgConfig {
    /// A gallery unlocked up to `cg`.
    pub fn new(cg: u64) -> (r: Self)
        ensures
            r.cg == cg,
    {
        Self { cg }
    }

    /// How far the gallery has been unlocked.
    pub fn cg(&self) -> (r: u64)
        ensures
            r == self.cg,
    {
        self.cg
    }
}

/// What is kept besides the save slots.
#[derive(Debug, Clone, Copy, PartialEq, Eq, Structural)]
pub struct ExtraConfig {
    pub cg: CgConfig,
}

impl ExtraConfig {
    /// What is kept for a gallery unlocked up to `cg`.
    pub fn new(cg: u64) -> (r: Self)
        ensures
            r.cg.cg == cg,
    {
        ExtraConfig { cg: CgConfig::new(cg) }
    }

    /// How far the gallery has been unlocked.
    pub fn cg(&self) -> (r: u64)
        ensures
            r == self.cg.cg,
    {
        self.cg.cg()
    }
}

/// One animated picture of the gallery: its name, its number and its length.
#[derive(Debug)]
pub struct Length {
    pub name: String,
    pub index: usize,
    pub length: u64,
}

/// The pictures of `entries` by name: for each name the number and length of
/// the last picture of that name.
pub open spec fn by_name(entries: Seq<Length>) -> Seq<(Seq<char>, (usize, u64))>
    decreases entries.len(),
{
    if entries.len() == 0 {
        Seq::empty()
    } else {
        upsert(
            by_name(entries.drop_last()),
            entries.last().name@,
            (entries.last().index, entries.last().length),
        )
    }
}

/// The pictures of `entries` by number: for each number the name and length
/// of the last picture of that number.
pub open spec fn by_id(entries: Seq<Length>) -> Seq<(nat, (Seq<char>, u64))>
    decreases entries.len(),
{
    if entries.len() == 0 {
        Seq::empty()
    } else {
        declare(
            by_id(entries.drop_last()),
            entries.last().index as nat,
            (entries.last().name@, entries.last().length),
        )
    }
}

/// The pictures of the gallery, to be found by name and by number.
#[derive(Debug)]
pub struct CgLength {
    pub cg_by_name: Vec<(String, (usize, u64))>,
    pub cg_by_id: Overlay<(String, u64)>,
}

impl CgLength {
    /// The table of the pictures `entries`. Of two pictures with one name, or
    /// with one number, the later is kept.
    pub fn from_entries(entries: &Vec<Length>) -> (r: Self)
        ensures
            r.cg_by_name.deep_view() == by_name(entries@),
            r.cg_by_id@ == by_id(entries@),
    {
        let mut names: Vec<(String, (usize, u64))> = Vec::new();
        let mut ids: Overlay<(String, u64)> = Overlay::new();
        let mut i: usize = 0;
        assert(entries@.take(0) =~= Seq::empty());
        assert(names.deep_view() =~= Seq::empty());
        while i < entries.len()
            invariant
                i <= entries.len(),
                names.deep_view() == by_name(entries@.take(i as int)),
                ids@ == by_id(entries@.take(i as int)),
            decreases entries.len() - i,
        {
            let e = &entries[i];
            proof {
                let next = entries@.take(i + 1);
                assert(next.drop_last() =~= entries@.take(i as int));
                assert(next.last() == entries@[i as int]);
            }
            put(&mut names, e.name.clone(), (e.index, e.length));
            ids.set(e.index, (e.name.clone(), e.length));
            i += 1;
        }
        assert(entries@.take(i as int) =~= entries@);
        CgLength { cg_by_name: names, cg_by_id: ids }
    }

    /// The number and length of the picture named `name`.
    pub fn find_by_name(&self, name: &str) -> (r: Option<&(usize, u64)>)
        ensures
            r.deep_view() == lookup(self.cg_by_name.deep_view(), name@),
    {
        let key = String::from_str(name);
        get(&self.cg_by_name, &key)
    }

    /// The name and length of the picture with the number `index`; none for a
    /// number that is no index on this machine.
    pub fn find_by_id(&self, index: u64) -> (r: Option<&(String, u64)>)
        ensures
            index <= usize::MAX ==> r.deep_view() == declared_at(self.cg_by_id@, index as nat),
            index > usize::MAX ==> r is None,
    {
        if index <= usize::MAX as u64 {
            self.cg_by_id.get(index as usize)
        } else {
            None
        }
    }
}

/// How long each recording of each character is, in milliseconds.
#[derive(Debug)]
pub struct VoiceConfig {
    pub voice_length: Vec<(String, Vec<(String, u64)>)>,
}

impl VoiceConfig {
    /// A table without recordings.
    pub fn new() -> (r: Self)
        ensures
            r.voice_length.deep_view() == Seq::<(Seq<char>, Seq<(Seq<char>, u64)>)>::empty(),
    {
        let r = VoiceConfig { voice_length: Vec::new() };
        assert(r.voice_length.deep_view() =~= Seq::<(Seq<char>, Seq<(Seq<char>, u64)>)>::empty());
        r
    }

    /// Sets the recordings of the character `name`, each a clip with its length.
    pub fn insert(&mut self, name: String, clips: Vec<(String, u64)>)
        ensures
            final(self).voice_length.deep_view() == upsert(
                old(self).voice_length.deep_view(),
                name@,
                clips.deep_view(),
            ),
    {
        put(&mut self.voice_length, name, clips);
    }

    /// The recordings of the character `name`.
    pub fn find(&self, name: &str) -> (r: Option<&Vec<(String, u64)>>)
        ensures
            r.deep_view() == lookup(self.voice_length.deep_view(), name@),
    {
        let key = String::from_str(name);
        get(&self.voice_length, &key)
    }

    /// The length of the clip `voice` of the character `name`, in
    /// milliseconds: `None` where the character has no recordings, 0 where
    /// the character has no such clip.
    pub fn length_of(&self, name: &str, voice: &str) -> (r: Option<u64>)
        ensures
            r == clip_length(self.voice_length.deep_view(), name@, voice@),
    {
        match self.find(name) {
            Some(clips) => {
                let key = String::from_str(voice);
                match get(clips, &key) {
                    Some(ms) => Some(*ms),
                    None => Some(0),
                }
            },
            None => None,
        }
    }
}

/// The length of the clip `voice` of the character `name` in the table
/// `voices`: `None` where the character has no recordings, 0 where the
/// character has no such clip.
pub open spec fn clip_length(
    voices: Seq<(Seq<char>, Seq<(Seq<char>, u64)>)>,
    name: Seq<char>,
    voice: Seq<char>,
) -> Option<u64> {
    match lookup(voices, name) {
        Some(clips) => match lookup(clips, voice) {
            Some(ms) => Some(ms),
            None => Some(0),
        },
        None => None,
    }
}

/// What a save slot holds.
#[derive(Debug)]
pub struct SaveData {
    pub script: String,
    pub block_index: usize,
    pub explain: String,
    pub image_path: String,
}

impl SaveData {
    /// A save slot for the block `block_index` of `script`, shown with the
    /// label `explain` and the picture at `image_path`.
    pub fn new(script: String, block_index: usize, explain: String, image_path: String) -> (r:
        SaveData)
        ensures
            r.script == script,
            r.block_index == block_index,
            r.explain == explain,
            r.image_path == image_path,
    {
        SaveData { script, block_index, explain, image_path }
    }
}

} // verus!
