use std::collections::HashMap;

use vstd::prelude::*;

use crate::meter::MeterConfig;
use crate::themes::DeviceMeter;

verus! {

broadcast use vstd::std_specs::hash::group_hash_axioms;

/// Where fonts named by themes are found.
pub const FONT_DIR: &'static str = "res/fonts/";

/// The widgets of each meter: the layout of the last configuration with
/// that id wins.
pub open spec fn widget_map(cfgs: Seq<MeterConfig>) -> Map<u64, DeviceMeter>
    decreases cfgs.len(),
{
    if cfgs.len() == 0 {
        Map::empty()
    } else {
        widget_map(cfgs.drop_last()).insert(cfgs.last().id, cfgs.last().layout)
    }
}

/// The font file of a configuration's text widget, if it has one.
pub open spec fn font_path_of(cfg: MeterConfig) -> Option<Seq<char>> {
    match cfg.layout.text {
        Some(t) => Some(FONT_DIR@ + t.font@),
        None => None,
    }
}

/// The font files that the configurations need, each once, in the order in
/// which they are first needed.
pub open spec fn font_paths(cfgs: Seq<MeterConfig>) -> Seq<Seq<char>>
    decreases cfgs.len(),
{
    if cfgs.len() == 0 {
        Seq::empty()
    } else {
        let prev = font_paths(cfgs.drop_last());
        match font_path_of(cfgs.last()) {
            Some(p) => if prev.contains(p) {
                prev
            } else {
                prev.push(p)
            },
            None => prev,
        }
    }
}

pub open spec fn texts(v: Seq<String>) -> Seq<Seq<char>> {
    v.map_values(|s: String| s@)
}

fn contains_text(list: &Vec<String>, s: &String) -> (r: bool)
    ensures
        r == texts(list@).contains(s@),
{
    let mut i: usize = 0;
    while i < list.len()
        invariant
            i <= list@.len(),
            forall|k: int| 0 <= k < i ==> list@[k]@ != s@,
        decreases list@.len() - i,
    {
        if list[i] == *s {
            assert(texts(list@)[i as int] == s@);
            return true;
        }
        i += 1;
    }
    proof {
        if texts(list@).contains(s@) {
            let k = choose|k: int| 0 <= k < texts(list@).len() && texts(list@)[k] == s@;
            assert(list@[k]@ == s@);
        }
    }
    false
}

/// What the renderer draws for each meter, and the fonts it needs.
pub struct Renderer {
    widgets: HashMap<u64, DeviceMeter>,
    fonts: Vec<String>,
}

impl Renderer {
    pub closed spec fn widgets(&self) -> Map<u64, DeviceMeter> {
        self.widgets@
    }

    pub closed spec fn fonts(&self) -> Seq<Seq<char>> {
        texts(self.fonts@)
    }

    /// The renderer for `configs`: each meter's widgets by id, and each
    /// needed font file once.
    pub fn new(configs: Vec<MeterConfig>) -> (r: Renderer)
        ensures
            r.widgets() == widget_map(configs@),
            r.fonts() == font_paths(configs@),
    {
        let ghost orig = configs@;
        let mut rest = configs;
        let mut widgets: HashMap<u64, DeviceMeter> = HashMap::new();
        let mut fonts: Vec<String> = Vec::new();
        let ghost mut done: int = 0;
        while rest.len() > 0
            invariant
                0 <= done <= orig.len(),
                rest@ == orig.skip(done),
                widgets@ == widget_map(orig.take(done)),
                texts(fonts@) == font_paths(orig.take(done)),
            decreases rest@.len(),
        {
            let cfg = rest.remove(0);
            proof {
                assert(orig.take(done + 1).drop_last() =~= orig.take(done));
                assert(orig.take(done + 1).last() == cfg);
                assert(rest@ =~= orig.skip(done + 1));
            }
            let MeterConfig { id, interval: _, layout } = cfg;
            match &layout.text {
                Some(t) => {
                    let mut path = String::from_str(FONT_DIR);
                    path.append(t.font.as_str());
                    if !contains_text(&fonts, &path) {
                        fonts.push(path);
                        proof {
                            assert(texts(fonts@) =~= font_paths(orig.take(done)).push(path@));
                        }
                    }
                },
                None => {},
            }
            widgets.insert(id, layout);
            proof {
                done = done + 1;
            }
        }
        proof {
            assert(orig.take(done) =~= orig);
        }
        Renderer { widgets, fonts }
    }

    /// The font files to load, each once.
    pub fn font_list(&self) -> (f: &Vec<String>)
        ensures
            texts(f@) == self.fonts(),
    {
        &self.fonts
    }

    /// The widgets of meter `id`.
    pub fn widget(&self, id: u64) -> (w: Option<&DeviceMeter>)
        ensures
            match w {
                Some(l) => self.widgets().contains_key(id) && *l == self.widgets()[id],
                None => !self.widgets().contains_key(id),
            },
    {
        self.widgets.get(&id)
    }
}

} // verus!
