//! The style registry: named styles with optional colours and attribute bits, addressed by
//! name or by id. Colours are carried, never inspected, so their type is a parameter.
use vstd::prelude::*;

verus! {

/// One style: optional foreground and background colours and attribute bits.
#[derive(Clone, Copy, Debug)]
pub struct StyleDefinition<C> {
    pub fg: Option<C>,
    pub bg: Option<C>,
    pub attributes: u32,
}

/// The index of `name` in `names` at or after `i`, if it is there.
pub open spec fn index_of(names: Seq<Seq<char>>, name: Seq<char>, i: int) -> Option<int>
    decreases names.len() - i,
{
    if i < 0 || i >= names.len() {
        None
    } else if names[i] == name {
        Some(i)
    } else {
        index_of(names, name, i + 1)
    }
}

/// A registry as a mathematical value: the names in registration order and the style of
/// each. The style named `names[i]` has id `i + 1`.
pub struct StyleTable<C> {
    pub names: Seq<Seq<char>>,
    pub styles: Seq<StyleDefinition<C>>,
}

impl<C> StyleTable<C> {
    pub open spec fn wf(self) -> bool {
        &&& self.names.len() == self.styles.len()
        &&& self.names.len() < u32::MAX
        &&& forall|i: int, j: int|
            0 <= i < j < self.names.len() ==> #[trigger] self.names[i] != #[trigger] self.names[j]
    }

    /// The style with id `id`.
    pub open spec fn by_id(self, id: u32) -> Option<StyleDefinition<C>> {
        if 1 <= id <= self.styles.len() {
            Some(self.styles[id - 1])
        } else {
            None
        }
    }

    /// The id of the style called `name`.
    pub open spec fn id_of(self, name: Seq<char>) -> Option<u32> {
        match index_of(self.names, name, 0) {
            Some(i) => Some((i + 1) as u32),
            None => None,
        }
    }
}

/// The styles of `ids[..k]` merged in order: a later colour replaces an earlier one, and
/// attribute bits accumulate; unknown ids are skipped.
pub open spec fn merged<C>(t: StyleTable<C>, ids: Seq<u32>, k: int) -> StyleDefinition<C>
    decreases k,
{
    if k <= 0 {
        StyleDefinition { fg: None, bg: None, attributes: 0 }
    } else {
        let m = merged(t, ids, k - 1);
        match t.by_id(ids[k - 1]) {
            None => m,
            Some(s) => StyleDefinition {
                fg: if s.fg is Some { s.fg } else { m.fg },
                bg: if s.bg is Some { s.bg } else { m.bg },
                attributes: m.attributes | s.attributes,
            },
        }
    }
}

/// Styles by name and by id; ids start at 1 and follow registration order.
pub struct SyntaxStyle<C> {
    names: Vec<String>,
    styles: Vec<StyleDefinition<C>>,
}

impl<C> View for SyntaxStyle<C> {
    type V = StyleTable<C>;

    closed spec fn view(&self) -> StyleTable<C> {
        StyleTable {
            names: Seq::new(self.names@.len(), |i: int| self.names@[i]@),
            styles: self.styles@,
        }
    }
}

proof fn lemma_index_of<C>(t: StyleTable<C>, name: Seq<char>, i: int)
    requires
        0 <= i,
    ensures
        index_of(t.names, name, i) is Some ==> {
            let k = index_of(t.names, name, i)->0;
            i <= k < t.names.len() && t.names[k] == name
        },
        index_of(t.names, name, i) is None ==> forall|j: int|
            i <= j < t.names.len() ==> t.names[j] != name,
    decreases t.names.len() - i,
{
    if i < t.names.len() && t.names[i] != name {
        lemma_index_of(t, name, i + 1);
    }
}

impl<C: Copy> SyntaxStyle<C> {
    pub fn new() -> (r: SyntaxStyle<C>)
        ensures
            r@.wf(),
            r@.names.len() == 0,
    {
        SyntaxStyle { names: Vec::new(), styles: Vec::new() }
    }

    /// The index of the style called `name`.
    fn find(&self, name: &str) -> (r: Option<usize>)
        requires
            self@.wf(),
        ensures
            r is Some <==> index_of(self@.names, name@, 0) is Some,
            r is Some ==> r->0 == index_of(self@.names, name@, 0)->0,
    {
        let key = name.to_owned();
        let n = self.names.len();
        let mut i: usize = 0;
        while i < n
            invariant
                n == self@.names.len(),
                key@ == name@,
                i <= n,
                index_of(self@.names, name@, 0) == index_of(self@.names, name@, i as int),
            decreases n - i,
        {
            if self.names[i] == key {
                return Some(i);
            }
            i = i + 1;
        }
        None
    }

    /// Registers the style called `name`, replacing its definition if the name is known,
    /// and returns its id.
    pub fn register_style(&mut self, name: &str, fg: Option<C>, bg: Option<C>, attributes: u32) -> (r: u32)
        requires
            old(self)@.wf(),
            old(self)@.names.len() + 1 < u32::MAX,
        ensures
            final(self)@.wf(),
            ({
                let o = old(self)@;
                let def = StyleDefinition { fg, bg, attributes };
                match index_of(o.names, name@, 0) {
                    Some(i) => r == i + 1 && final(self)@.names == o.names
                        && final(self)@.styles == o.styles.update(i, def),
                    None => r == o.names.len() + 1 && final(self)@.names == o.names.push(name@)
                        && final(self)@.styles == o.styles.push(def),
                }
            }),
    {
        let def = StyleDefinition { fg, bg, attributes };
        proof { lemma_index_of(self@, name@, 0); }
        match self.find(name) {
            Some(i) => {
                self.styles.set(i, def);
                assert(self@.names =~= old(self)@.names);
                (i + 1) as u32
            },
            None => {
                let id = self.names.len() as u32 + 1;
                self.names.push(name.to_owned());
                self.styles.push(def);
                assert(self@.names =~= old(self)@.names.push(name@));
                id
            },
        }
    }

    /// The style with id `id`.
    pub fn resolve_by_id(&self, id: u32) -> (r: Option<StyleDefinition<C>>)
        requires
            self@.wf(),
        ensures
            r == self@.by_id(id),
    {
        if id >= 1 && (id as usize) <= self.styles.len() {
            Some(self.styles[(id - 1) as usize])
        } else {
            None
        }
    }

    /// The id of the style called `name`.
    pub fn resolve_by_name(&self, name: &str) -> (r: Option<u32>)
        requires
            self@.wf(),
        ensures
            r == self@.id_of(name@),
    {
        proof { lemma_index_of(self@, name@, 0); }
        match self.find(name) {
            Some(i) => Some((i + 1) as u32),
            None => None,
        }
    }

    /// The style called `name`.
    pub fn get_style_by_name(&self, name: &str) -> (r: Option<StyleDefinition<C>>)
        requires
            self@.wf(),
        ensures
            r == match self@.id_of(name@) {
                Some(id) => self@.by_id(id),
                None => None,
            },
    {
        let id = self.resolve_by_name(name)?;
        self.resolve_by_id(id)
    }

    /// The styles of `ids` merged in order: a later colour replaces an earlier one and
    /// attribute bits are combined; unknown ids are skipped.
    pub fn merge_styles(&self, ids: &[u32]) -> (r: StyleDefinition<C>)
        requires
            self@.wf(),
        ensures
            r == merged(self@, ids@, ids@.len() as int),
    {
        let mut m = StyleDefinition { fg: None, bg: None, attributes: 0 };
        let n = ids.len();
        for k in 0..n
            invariant
                n == ids@.len(),
                self@.wf(),
                m == merged(self@, ids@, k as int),
        {
            if let Some(s) = self.resolve_by_id(ids[k]) {
                if s.fg.is_some() {
                    m.fg = s.fg;
                }
                if s.bg.is_some() {
                    m.bg = s.bg;
                }
                m.attributes = m.attributes | s.attributes;
            }
        }
        m
    }

    /// How many styles are registered.
    pub fn get_style_count(&self) -> (r: usize)
        requires
            self@.wf(),
        ensures
            r == self@.styles.len(),
    {
        self.styles.len()
    }
}

impl<C: Copy> Default for SyntaxStyle<C> {
    fn default() -> (r: SyntaxStyle<C>)
        ensures
            r@.wf(),
            r@.names.len() == 0,
    {
        SyntaxStyle::new()
    }
}

} // verus!
