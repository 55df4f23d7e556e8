use vstd::prelude::*;
use vstd::string::{StrSliceExecFns, StringExecFns};
use crate::error::ApiError;
use crate::models::copy_text;
use crate::slug::{lower_of, slug_of, slugify};

verus! {

/// A node of a store's category tree.
#[derive(Debug, Clone)]
pub struct Category {
    pub id: u128,
    pub store_id: u128,
    pub parent_id: Option<u128>,
    pub name: String,
    pub slug: String,
    pub description: Option<String>,
    pub sort_order: i32,
    pub created_at: i64,
    pub updated_at: i64,
}

/// The short reference to a category that a product carries.
#[derive(Debug, Clone)]
pub struct CategorySummary {
    pub id: u128,
    pub name: String,
    pub slug: String,
}

/// A category as the API shows it. Assembling the tree is left to the
/// caller.
#[derive(Debug, Clone)]
pub struct CategoryResponse {
    pub id: u128,
    pub name: String,
    pub slug: String,
    pub description: Option<String>,
    pub parent_id: Option<u128>,
    pub sort_order: i32,
    pub created_at: i64,
    pub updated_at: i64,
}

#[derive(Debug, Clone)]
pub struct CreateCategoryRequest {
    pub name: String,
    pub description: Option<String>,
    pub parent_id: Option<u128>,
    pub sort_order: Option<i32>,
}

/// Fields left `None` keep their current value.
#[derive(Debug, Clone)]
pub struct UpdateCategoryRequest {
    pub name: Option<String>,
    pub description: Option<String>,
    pub parent_id: Option<u128>,
    pub sort_order: Option<i32>,
}

impl Category {
    pub fn duplicate(&self) -> (r: Category)
        ensures
            r == *self,
    {
        Category {
            id: self.id,
            store_id: self.store_id,
            parent_id: self.parent_id,
            name: self.name.clone(),
            slug: self.slug.clone(),
            description: copy_text(&self.description),
            sort_order: self.sort_order,
            created_at: self.created_at,
            updated_at: self.updated_at,
        }
    }

    pub fn summary(&self) -> (r: CategorySummary)
        ensures
            r.id == self.id,
            r.name == self.name,
            r.slug == self.slug,
    {
        CategorySummary { id: self.id, name: self.name.clone(), slug: self.slug.clone() }
    }

    pub fn to_response(&self) -> (r: CategoryResponse)
        ensures
            r.id == self.id,
            r.name == self.name,
            r.slug == self.slug,
            r.description == self.description,
            r.parent_id == self.parent_id,
            r.sort_order == self.sort_order,
            r.created_at == self.created_at,
            r.updated_at == self.updated_at,
    {
        CategoryResponse {
            id: self.id,
            name: self.name.clone(),
            slug: self.slug.clone(),
            description: copy_text(&self.description),
            parent_id: self.parent_id,
            sort_order: self.sort_order,
            created_at: self.created_at,
            updated_at: self.updated_at,
        }
    }
}

pub open spec fn has_category(cs: Seq<Category>, id: u128) -> bool {
    exists|i: int| 0 <= i < cs.len() && cs[i].id == id
}

pub open spec fn category_name_ok(name: Seq<char>) -> bool {
    1 <= name.len() <= 255
}

fn check_category_name(name: &String) -> (r: Result<(), ApiError>)
    ensures
        r is Ok <==> category_name_ok(name@),
        r matches Err(e) ==> e is Validation,
{
    let n = name.as_str().unicode_len();
    if n < 1 || n > 255 {
        Err(ApiError::validation(String::from_str("name: must be 1 to 255 characters")))
    } else {
        Ok(())
    }
}

/// `s` is ordered by `sort_order`.
pub open spec fn by_sort_order(s: Seq<Category>) -> bool {
    forall|i: int, j: int| 0 <= i < j < s.len() ==> s[i].sort_order <= s[j].sort_order
}

/// The categories of all stores; ids are unique.
#[derive(Debug, Clone)]
pub struct CategoryStore {
    pub categories: Vec<Category>,
}

impl CategoryStore {
    pub open spec fn wf(&self) -> bool {
        forall|i: int, j: int|
            0 <= i < self.categories@.len() && 0 <= j < self.categories@.len() && i != j
                ==> #[trigger] self.categories@[i].id != #[trigger] self.categories@[j].id
    }

    pub fn new() -> (r: Self)
        ensures
            r.wf(),
            r.categories@.len() == 0,
    {
        CategoryStore { categories: Vec::new() }
    }

    fn find(&self, id: u128) -> (r: Option<usize>)
        ensures
            r is None <==> !has_category(self.categories@, id),
            r matches Some(i) ==> i < self.categories@.len() && self.categories@[i as int].id == id,
    {
        let mut i: usize = 0;
        while i < self.categories.len()
            invariant
                i <= self.categories@.len(),
                forall|j: int| 0 <= j < i ==> self.categories@[j].id != id,
            decreases self.categories@.len() - i,
        {
            if self.categories[i].id == id {
                return Some(i);
            }
            i += 1;
        }
        None
    }

    /// The categories of a store, by `sort_order`; equal orders keep the
    /// order in which the categories were made.
    pub fn list_categories(&self, store_id: u128) -> (r: Vec<Category>)
        ensures
            by_sort_order(r@),
            forall|c: Category| #[trigger] r@.contains(c) <==> self.categories@.contains(c) && c.store_id == store_id,
    {
        let mut out: Vec<Category> = Vec::new();
        let mut i: usize = 0;
        while i < self.categories.len()
            invariant
                i <= self.categories@.len(),
                by_sort_order(out@),
                forall|c: Category|
                    #[trigger] out@.contains(c) <==> self.categories@.take(i as int).contains(c) && c.store_id
                        == store_id,
            decreases self.categories@.len() - i,
        {
            let c = self.categories[i].duplicate();
            proof {
                assert(self.categories@.take(i + 1) =~= self.categories@.take(i as int).push(c));
            }
            if c.store_id == store_id {
                let key = c.sort_order;
                let mut pos: usize = 0;
                while pos < out.len() && out[pos].sort_order <= key
                    invariant
                        pos <= out@.len(),
                        forall|k: int| 0 <= k < pos ==> out@[k].sort_order <= key,
                    decreases out@.len() - pos,
                {
                    pos += 1;
                }
                let ghost before = out@;
                out.insert(pos, c);
                proof {
                    assert forall|a: int, b: int| 0 <= a < b < out@.len() implies out@[a].sort_order
                        <= out@[b].sort_order by {
                        if b < pos {
                            assert(out@[a] == before[a] && out@[b] == before[b]);
                        } else if b == pos {
                            assert(out@[a] == before[a]);
                        } else if a < pos {
                            assert(out@[a] == before[a] && out@[b] == before[b - 1]);
                            assert(before[pos as int].sort_order > key || pos == before.len());
                        } else if a == pos {
                            assert(out@[b] == before[b - 1]);
                            assert(before[pos as int].sort_order > key);
                            assert(before[pos as int].sort_order <= before[b - 1].sort_order || b - 1 == pos);
                        } else {
                            assert(out@[a] == before[a - 1] && out@[b] == before[b - 1]);
                        }
                    }
                    assert forall|x: Category| #[trigger] out@.contains(x) <==> before.contains(x) || x == c by {
                        if out@.contains(x) {
                            let k = choose|k: int| 0 <= k < out@.len() && out@[k] == x;
                            if k < pos {
                                assert(out@[k] == before[k]);
                            } else if k > pos {
                                assert(out@[k] == before[k - 1]);
                            }
                        }
                        if before.contains(x) {
                            let k = choose|k: int| 0 <= k < before.len() && before[k] == x;
                            if k < pos {
                                assert(out@[k] == x);
                            } else {
                                assert(out@[k + 1] == x);
                            }
                        }
                        if x == c {
                            assert(out@[pos as int] == c);
                        }
                    }
                }
            }
            proof {
                let t = self.categories@.take(i as int);
                assert forall|x: Category| t.push(c).contains(x) <==> t.contains(x) || x == c by {
                    if t.push(c).contains(x) && x != c {
                        let k = choose|k: int| 0 <= k < t.push(c).len() && t.push(c)[k] == x;
                        assert(k < t.len());
                        assert(t[k] == x);
                    }
                    if t.contains(x) {
                        let k = choose|k: int| 0 <= k < t.len() && t[k] == x;
                        assert(t.push(c)[k] == x);
                    }
                    if x == c {
                        assert(t.push(c)[t.len() as int] == c);
                    }
                }
            }
            i += 1;
        }
        proof {
            assert(self.categories@.take(self.categories@.len() as int) =~= self.categories@);
        }
        out
    }

    /// The category with this id, or `NotFound`.
    pub fn get_category(&self, id: u128) -> (r: Result<Category, ApiError>)
        ensures
            r is Ok <==> has_category(self.categories@, id),
            r matches Ok(c) ==> c.id == id && self.categories@.contains(c),
            r matches Err(e) ==> e is NotFound,
    {
        match self.find(id) {
            Some(i) => Ok(self.categories[i].duplicate()),
            None => Err(ApiError::not_found(String::from_str("Category not found"))),
        }
    }

    /// Records a category with a slug made from its name; sort order
    /// defaults to 0.
    pub fn create_category(&mut self, id: u128, store_id: u128, req: CreateCategoryRequest, now: i64) -> (r: Result<
        Category,
        ApiError,
    >)
        requires
            old(self).wf(),
        ensures
            final(self).wf(),
            r is Ok <==> category_name_ok(req.name@) && !has_category(old(self).categories@, id),
            r matches Err(e) ==> *final(self) == *old(self) && if category_name_ok(req.name@) {
                e is Conflict
            } else {
                e is Validation
            },
            r matches Ok(c) ==> {
                &&& final(self).categories@ == old(self).categories@.push(c)
                &&& c.id == id && c.store_id == store_id && c.parent_id == req.parent_id
                &&& c.name == req.name && c.slug@ == slug_of(lower_of(req.name@))
                &&& c.description == req.description
                &&& c.sort_order == match req.sort_order {
                    Some(o) => o,
                    None => 0,
                }
                &&& c.created_at == now && c.updated_at == now
            },
    {
        match check_category_name(&req.name) {
            Ok(()) => {},
            Err(e) => {
                return Err(e);
            },
        }
        if self.find(id).is_some() {
            return Err(ApiError::conflict(String::from_str("category id already in use")));
        }
        let slug = slugify(req.name.as_str());
        let c = Category {
            id,
            store_id,
            parent_id: req.parent_id,
            name: req.name,
            slug,
            description: req.description,
            sort_order: match req.sort_order {
                Some(o) => o,
                None => 0,
            },
            created_at: now,
            updated_at: now,
        };
        let out = c.duplicate();
        let ghost before = self.categories@;
        self.categories.push(c);
        proof {
            assert forall|i: int, j: int|
                0 <= i < self.categories@.len() && 0 <= j < self.categories@.len() && i != j implies #[trigger] self.categories@[i].id
                != #[trigger] self.categories@[j].id by {
                if i < before.len() {
                    assert(self.categories@[i] == before[i]);
                }
                if j < before.len() {
                    assert(self.categories@[j] == before[j]);
                }
            }
        }
        Ok(out)
    }

    /// Applies an update; a new name brings a new slug.
    pub fn update_category(&mut self, id: u128, req: UpdateCategoryRequest, now: i64) -> (r: Result<Category, ApiError>)
        requires
            old(self).wf(),
        ensures
            final(self).wf(),
            r is Ok <==> has_category(old(self).categories@, id) && (req.name matches Some(n) ==> category_name_ok(n@)),
            r matches Err(e) ==> *final(self) == *old(self) && if has_category(old(self).categories@, id) {
                e is Validation
            } else {
                e is NotFound
            },
            r matches Ok(c) ==> exists|i: int|
                0 <= i < old(self).categories@.len() && old(self).categories@[i].id == id && ({
                    let cur = old(self).categories@[i];
                    &&& final(self).categories@ == old(self).categories@.update(i, c)
                    &&& c.id == id && c.store_id == cur.store_id && c.created_at == cur.created_at
                    &&& c.updated_at == now
                    &&& c.name == match req.name {
                        Some(n) => n,
                        None => cur.name,
                    }
                    &&& c.slug@ == match req.name {
                        Some(n) => slug_of(lower_of(n@)),
                        None => cur.slug@,
                    }
                    &&& c.parent_id == match req.parent_id {
                        Some(p) => Some(p),
                        None => cur.parent_id,
                    }
                    &&& c.description == match req.description {
                        Some(d) => Some(d),
                        None => cur.description,
                    }
                    &&& c.sort_order == match req.sort_order {
                        Some(o) => o,
                        None => cur.sort_order,
                    }
                }),
    {
        let i = match self.find(id) {
            Some(i) => i,
            None => {
                return Err(ApiError::not_found(String::from_str("Category not found")));
            },
        };
        match &req.name {
            Some(n) => match check_category_name(n) {
                Ok(()) => {},
                Err(e) => {
                    return Err(e);
                },
            },
            None => {},
        }
        let cur = self.categories[i].duplicate();
        let (name, slug) = match req.name {
            Some(n) => {
                let s = slugify(n.as_str());
                (n, s)
            },
            None => (cur.name, cur.slug),
        };
        let c = Category {
            id: cur.id,
            store_id: cur.store_id,
            parent_id: match req.parent_id {
                Some(p) => Some(p),
                None => cur.parent_id,
            },
            name,
            slug,
            description: match req.description {
                Some(d) => Some(d),
                None => cur.description,
            },
            sort_order: match req.sort_order {
                Some(o) => o,
                None => cur.sort_order,
            },
            created_at: cur.created_at,
            updated_at: now,
        };
        let out = c.duplicate();
        let ghost before = self.categories@;
        self.categories.set(i, c);
        proof {
            assert forall|a: int, b: int|
                0 <= a < self.categories@.len() && 0 <= b < self.categories@.len() && a != b implies #[trigger] self.categories@[a].id
                != #[trigger] self.categories@[b].id by {
                assert(self.categories@[a].id == before[a].id && self.categories@[b].id == before[b].id);
            }
        }
        Ok(out)
    }

    /// Deletes a category; an unknown id is no error.
    pub fn delete_category(&mut self, id: u128)
        requires
            old(self).wf(),
        ensures
            final(self).wf(),
            !has_category(final(self).categories@, id),
            forall|c: Category| #[trigger] final(self).categories@.contains(c) <==> old(self).categories@.contains(c) && c.id != id,
    {
        match self.find(id) {
            Some(i) => {
                let ghost before = self.categories@;
                self.categories.remove(i);
                proof {
                    before.remove_ensures(i as int);
                    let ii = i as int;
                    assert forall|a: int, b: int|
                        0 <= a < self.categories@.len() && 0 <= b < self.categories@.len() && a != b implies #[trigger] self.categories@[a].id
                        != #[trigger] self.categories@[b].id by {
                        let sa = if a < ii { a } else { a + 1 };
                        let sb = if b < ii { b } else { b + 1 };
                        assert(self.categories@[a] == before[sa] && self.categories@[b] == before[sb]);
                    }
                    if has_category(self.categories@, id) {
                        let k = choose|k: int| 0 <= k < self.categories@.len() && self.categories@[k].id == id;
                        let sk = if k < ii { k } else { k + 1 };
                        assert(self.categories@[k] == before[sk]);
                    }
                    assert forall|c: Category| #[trigger] self.categories@.contains(c) <==> before.contains(c) && c.id != id by {
                        if self.categories@.contains(c) {
                            let k = choose|k: int| 0 <= k < self.categories@.len() && self.categories@[k] == c;
                            let sk = if k < ii { k } else { k + 1 };
                            assert(self.categories@[k] == before[sk]);
                        }
                        if before.contains(c) && c.id != id {
                            let j = choose|j: int| 0 <= j < before.len() && before[j] == c;
                            let k = if j < ii { j } else { j - 1 };
                            assert(self.categories@[k] == before[j]);
                        }
                    }
                }
            },
            None => {
                proof {
                    assert forall|c: Category| #[trigger] self.categories@.contains(c) implies c.id != id by {
                        let k = choose|k: int| 0 <= k < self.categories@.len() && self.categories@[k] == c;
                    }
                }
            },
        }
    }
}

} // verus!
