//! The product record that a scrape fills in.

use crate::barcode::Ean13;
use crate::decimal::{Decimal, DecimalView};
use vstd::prelude::*;

verus! {

/// The image address of a product that has no image yet.
pub open spec fn blank_image() -> Seq<char> {
    "about:blank"@
}

/// A product listing as plain data. Two products are the same product record
/// exactly when their views are equal.
pub struct ProductView {
    /// The barcode, as the number that its digits write.
    pub ean13: nat,
    /// The description.
    pub desc: Seq<char>,
    /// The vendor's stock code.
    pub sku: Seq<char>,
    /// The address of the image.
    pub img_url: Seq<char>,
    /// The wholesale cost.
    pub wholesale: DecimalView,
    /// The manufacturer's suggested retail price.
    pub msrp: DecimalView,
    /// The minimum advertised price.
    pub imap: DecimalView,
    /// Other codes that name the same product.
    pub alts: Set<Seq<char>>,
    /// The vendor's extra fields, by key.
    pub misc: Map<Seq<char>, Seq<char>>,
}

/// One change to a product record: a field with its new value.
pub enum Change {
    Ean13(nat),
    Desc(Seq<char>),
    Sku(Seq<char>),
    ImgUrl(Seq<char>),
    Wholesale(DecimalView),
    Msrp(DecimalView),
    Imap(DecimalView),
    /// One more alternate identifier.
    AddAlt(Seq<char>),
    /// An extra field: its key and its value.
    Misc(Seq<char>, Seq<char>),
}

impl ProductView {
    /// The record that every product starts from.
    pub open spec fn initial() -> ProductView {
        ProductView {
            ean13: 0,
            desc: Seq::empty(),
            sku: Seq::empty(),
            img_url: blank_image(),
            wholesale: DecimalView::zero(),
            msrp: DecimalView::zero(),
            imap: DecimalView::zero(),
            alts: Set::empty(),
            misc: Map::empty(),
        }
    }

    /// The record with one change made and all else as it was.
    pub open spec fn with(self, change: Change) -> ProductView {
        match change {
            Change::Ean13(ean13) => ProductView { ean13, ..self },
            Change::Desc(desc) => ProductView { desc, ..self },
            Change::Sku(sku) => ProductView { sku, ..self },
            Change::ImgUrl(img_url) => ProductView { img_url, ..self },
            Change::Wholesale(wholesale) => ProductView { wholesale, ..self },
            Change::Msrp(msrp) => ProductView { msrp, ..self },
            Change::Imap(imap) => ProductView { imap, ..self },
            Change::AddAlt(alt) => ProductView { alts: self.alts.insert(alt), ..self },
            Change::Misc(key, value) => ProductView { misc: self.misc.insert(key, value), ..self },
        }
    }
}

/// The fields of a product record.
pub enum Field {
    Ean13,
    Desc,
    Sku,
    ImgUrl,
    Wholesale,
    Msrp,
    Imap,
    Alts,
    Misc,
}

impl Change {
    /// The field that the change touches.
    pub open spec fn field(self) -> Field {
        match self {
            Change::Ean13(_) => Field::Ean13,
            Change::Desc(_) => Field::Desc,
            Change::Sku(_) => Field::Sku,
            Change::ImgUrl(_) => Field::ImgUrl,
            Change::Wholesale(_) => Field::Wholesale,
            Change::Msrp(_) => Field::Msrp,
            Change::Imap(_) => Field::Imap,
            Change::AddAlt(_) => Field::Alts,
            Change::Misc(_, _) => Field::Misc,
        }
    }

    /// Two changes that do not meet: they touch different fields, or both add
    /// an alternate identifier, or they set extra fields of different keys.
    pub open spec fn apart_from(self, other: Change) -> bool {
        match (self, other) {
            (Change::AddAlt(_), Change::AddAlt(_)) => true,
            (Change::Misc(key, _), Change::Misc(other_key, _)) => key != other_key,
            _ => self.field() != other.field(),
        }
    }
}

/// Changes that do not meet can be made in either order: the record that
/// comes out is the same.
pub proof fn lemma_changes_commute(product: ProductView, first: Change, second: Change)
    requires
        first.apart_from(second),
    ensures
        product.with(first).with(second) == product.with(second).with(first),
{
    match (first, second) {
        (Change::AddAlt(a), Change::AddAlt(b)) => {
            assert(product.alts.insert(a).insert(b) =~= product.alts.insert(b).insert(a));
        },
        (Change::Misc(k1, v1), Change::Misc(k2, v2)) => {
            assert(product.misc.insert(k1, v1).insert(k2, v2) =~= product.misc.insert(k2, v2).insert(
                k1,
                v1,
            ));
        },
        _ => {},
    }
}

/// An alternate identifier added a second time changes nothing; added to a
/// product that has none, once or twice, it leaves exactly one.
pub proof fn lemma_add_alt_idempotent(product: ProductView, alt: Seq<char>)
    ensures
        product.with(Change::AddAlt(alt)).with(Change::AddAlt(alt)) == product.with(
            Change::AddAlt(alt),
        ),
        product.alts.is_empty() ==> product.with(Change::AddAlt(alt)).with(
            Change::AddAlt(alt),
        ).alts.len() == 1,
{
    assert(product.alts.insert(alt).insert(alt) =~= product.alts.insert(alt));
    if product.alts.is_empty() {
        assert(product.alts =~= Set::<Seq<char>>::empty());
        assert(product.alts.insert(alt) =~= set![alt]);
    }
}

/// The texts that a list of strings holds, in its order.
pub open spec fn texts(list: Seq<String>) -> Seq<Seq<char>> {
    Seq::new(list.len(), |i: int| list[i]@)
}

/// The keys of a list of pairs, in its order.
pub open spec fn keys(list: Seq<(String, String)>) -> Seq<Seq<char>> {
    Seq::new(list.len(), |i: int| list[i].0@)
}

/// The map that a list of pairs with distinct keys writes down.
pub open spec fn pairs_map(list: Seq<(String, String)>) -> Map<Seq<char>, Seq<char>> {
    Map::new(
        |key: Seq<char>| keys(list).contains(key),
        |key: Seq<char>| list[keys(list).index_of(key)].1@,
    )
}

/// In a list of pairs with distinct keys, a key is found where it stands.
proof fn lemma_key_found_in_place(list: Seq<(String, String)>, i: int)
    requires
        keys(list).no_duplicates(),
        0 <= i < list.len(),
    ensures
        keys(list).contains(list[i].0@),
        keys(list).index_of(list[i].0@) == i,
{
    assert(keys(list)[i] == list[i].0@);
}

/// Where `text` stands in `list`, if it does.
fn position(list: &Vec<String>, text: &str) -> (res: Option<usize>)
    ensures
        match res {
            Some(i) => i < list.len() && list[i as int]@ == text@,
            None => !texts(list@).contains(text@),
        },
{
    let wanted = text.to_owned();
    let mut i: usize = 0;
    while i < list.len()
        invariant
            i <= list.len(),
            wanted@ == text@,
            forall|j: int| 0 <= j < i ==> texts(list@)[j] != text@,
        decreases list.len() - i,
    {
        if list[i] == wanted {
            return Some(i);
        }
        assert(texts(list@)[i as int] == list[i as int]@);
        i += 1;
    }
    None
}

/// Where the pair with the key `key` stands in `list`, if there is one.
fn key_position(list: &Vec<(String, String)>, key: &str) -> (res: Option<usize>)
    ensures
        match res {
            Some(i) => i < list.len() && list[i as int].0@ == key@,
            None => !keys(list@).contains(key@),
        },
{
    let wanted = key.to_owned();
    let mut i: usize = 0;
    while i < list.len()
        invariant
            i <= list.len(),
            wanted@ == key@,
            forall|j: int| 0 <= j < i ==> keys(list@)[j] != key@,
        decreases list.len() - i,
    {
        if list[i].0 == wanted {
            return Some(i);
        }
        assert(keys(list@)[i as int] == list[i as int].0@);
        i += 1;
    }
    None
}

/// Whether two lists without repeats hold the same texts, in whatever order.
fn same_texts(a: &Vec<String>, b: &Vec<String>) -> (res: bool)
    requires
        texts(a@).no_duplicates(),
        texts(b@).no_duplicates(),
    ensures
        res == (texts(a@).to_set() == texts(b@).to_set()),
{
    proof {
        texts(a@).unique_seq_to_set();
        texts(b@).unique_seq_to_set();
    }
    if a.len() != b.len() {
        return false;
    }
    let mut i: usize = 0;
    while i < a.len()
        invariant
            i <= a.len(),
            forall|j: int| 0 <= j < i ==> texts(b@).contains(#[trigger] texts(a@)[j]),
        decreases a.len() - i,
    {
        match position(b, a[i].as_str()) {
            Some(k) => {
                assert(texts(b@)[k as int] == a[i as int]@);
            },
            None => {
                proof {
                    assert(texts(a@)[i as int] == a[i as int]@);
                    assert(texts(a@).to_set().contains(a[i as int]@));
                    assert(!texts(b@).to_set().contains(a[i as int]@));
                }
                return false;
            },
        }
        assert(texts(a@)[i as int] == a[i as int]@);
        i += 1;
    }
    proof {
        assert(texts(a@).to_set().subset_of(texts(b@).to_set()));
        vstd::seq_lib::seq_to_set_is_finite(texts(a@));
        vstd::seq_lib::seq_to_set_is_finite(texts(b@));
        vstd::set_lib::lemma_subset_equality(texts(a@).to_set(), texts(b@).to_set());
    }
    true
}

/// Whether two lists of pairs with distinct keys write down the same map.
fn same_pairs(a: &Vec<(String, String)>, b: &Vec<(String, String)>) -> (res: bool)
    requires
        keys(a@).no_duplicates(),
        keys(b@).no_duplicates(),
    ensures
        res == (pairs_map(a@) == pairs_map(b@)),
{
    proof {
        keys(a@).unique_seq_to_set();
        keys(b@).unique_seq_to_set();
        assert(pairs_map(a@).dom() =~= keys(a@).to_set());
        assert(pairs_map(b@).dom() =~= keys(b@).to_set());
    }
    if a.len() != b.len() {
        return false;
    }
    let mut i: usize = 0;
    while i < a.len()
        invariant
            i <= a.len(),
            keys(a@).no_duplicates(),
            keys(b@).no_duplicates(),
            forall|j: int|
                0 <= j < i ==> keys(b@).contains(#[trigger] keys(a@)[j]) && pairs_map(b@)[keys(a@)[j]]
                    == a[j].1@,
        decreases a.len() - i,
    {
        proof {
            assert(keys(a@)[i as int] == a[i as int].0@);
            lemma_key_found_in_place(a@, i as int);
        }
        match key_position(b, a[i].0.as_str()) {
            Some(j) => {
                proof {
                    lemma_key_found_in_place(b@, j as int);
                }
                if b[j].1 != a[i].1 {
                    assert(pairs_map(a@)[a[i as int].0@] != pairs_map(b@)[a[i as int].0@]);
                    return false;
                }
            },
            None => {
                proof {
                    assert(pairs_map(a@).dom().contains(a[i as int].0@));
                    assert(!pairs_map(b@).dom().contains(a[i as int].0@));
                }
                return false;
            },
        }
        i += 1;
    }
    proof {
        assert(keys(a@).to_set().subset_of(keys(b@).to_set()));
        vstd::seq_lib::seq_to_set_is_finite(keys(a@));
        vstd::seq_lib::seq_to_set_is_finite(keys(b@));
        vstd::set_lib::lemma_subset_equality(keys(a@).to_set(), keys(b@).to_set());
        assert forall|k: Seq<char>| pairs_map(a@).dom().contains(k) implies #[trigger] pairs_map(a@)[k]
            == pairs_map(b@)[k] by {
            let j: int = keys(a@).index_of(k);
            assert(keys(a@)[j] == k);
        }
        assert(pairs_map(a@) =~= pairs_map(b@));
    }
    true
}

/// All pertinent details of a product listing from a vendor's website:
/// barcode, description, stock code, image, the three prices, the other codes
/// that name it, and whatever else the vendor tells.
#[derive(Debug)]
pub struct Product {
    ean13: Ean13,
    desc: String,
    sku: String,
    wholesale: Decimal,
    img_url: String,
    msrp: Decimal,
    imap: Decimal,
    alts: Vec<String>,
    misc: Vec<(String, String)>,
}

impl View for Product {
    type V = ProductView;

    closed spec fn view(&self) -> ProductView {
        ProductView {
            ean13: self.ean13@,
            desc: self.desc@,
            sku: self.sku@,
            img_url: self.img_url@,
            wholesale: self.wholesale@,
            msrp: self.msrp@,
            imap: self.imap@,
            alts: texts(self.alts@).to_set(),
            misc: pairs_map(self.misc@),
        }
    }
}

impl Product {
    #[verifier::type_invariant]
    spec fn distinct(self) -> bool {
        &&& texts(self.alts@).no_duplicates()
        &&& keys(self.misc@).no_duplicates()
    }

    /// A product with sensible defaults: the all-zero barcode, no description,
    /// no stock code, the blank image, all prices zero, no alternate
    /// identifiers and no extra fields.
    pub fn new() -> (res: Product)
        ensures
            res@ == ProductView::initial(),
    {
        let res = Product {
            ean13: Ean13::default(),
            desc: String::new(),
            sku: String::new(),
            img_url: "about:blank".to_owned(),
            wholesale: Decimal::zero(),
            msrp: Decimal::zero(),
            imap: Decimal::zero(),
            alts: Vec::new(),
            misc: Vec::new(),
        };
        proof {
            assert(texts(res.alts@).to_set() =~= Set::<Seq<char>>::empty());
            assert(pairs_map(res.misc@) =~= Map::<Seq<char>, Seq<char>>::empty());
        }
        res
    }

    /// The same product with this barcode.
    pub fn ean13(self, ean13: Ean13) -> (res: Product)
        ensures
            res@ == self@.with(Change::Ean13(ean13@)),
    {
        proof {
            use_type_invariant(&self);
        }
        Product { ean13, ..self }
    }

    /// The same product with this description.
    pub fn desc(self, desc: &str) -> (res: Product)
        ensures
            res@ == self@.with(Change::Desc(desc@)),
    {
        proof {
            use_type_invariant(&self);
        }
        Product { desc: desc.to_owned(), ..self }
    }

    /// The same product with this stock code.
    pub fn sku(self, sku: &str) -> (res: Product)
        ensures
            res@ == self@.with(Change::Sku(sku@)),
    {
        proof {
            use_type_invariant(&self);
        }
        Product { sku: sku.to_owned(), ..self }
    }

    /// The same product with this image address.
    pub fn img_url(self, img_url: &str) -> (res: Product)
        ensures
            res@ == self@.with(Change::ImgUrl(img_url@)),
    {
        proof {
            use_type_invariant(&self);
        }
        Product { img_url: img_url.to_owned(), ..self }
    }

    /// The same product with this suggested retail price.
    pub fn msrp(self, msrp: Decimal) -> (res: Product)
        ensures
            res@ == self@.with(Change::Msrp(msrp@)),
    {
        proof {
            use_type_invariant(&self);
        }
        Product { msrp, ..self }
    }

    /// The same product with this minimum advertised price.
    pub fn imap(self, imap: Decimal) -> (res: Product)
        ensures
            res@ == self@.with(Change::Imap(imap@)),
    {
        proof {
            use_type_invariant(&self);
        }
        Product { imap, ..self }
    }

    /// The same product with this wholesale cost.
    pub fn wholesale(self, wholesale: Decimal) -> (res: Product)
        ensures
            res@ == self@.with(Change::Wholesale(wholesale@)),
    {
        proof {
            use_type_invariant(&self);
        }
        Product { wholesale, ..self }
    }

    /// The same product with one more alternate identifier. One that it has
    /// already changes nothing.
    pub fn add_alt(self, alt: &str) -> (res: Product)
        ensures
            res@ == self@.with(Change::AddAlt(alt@)),
    {
        proof {
            use_type_invariant(&self);
        }
        match position(&self.alts, alt) {
            Some(i) => {
                proof {
                    assert(texts(self.alts@)[i as int] == alt@);
                    assert(self@.alts.insert(alt@) =~= self@.alts);
                }
                self
            },
            None => {
                let ghost before = self.alts@;
                let mut alts = self.alts;
                alts.push(alt.to_owned());
                proof {
                    assert(texts(alts@) =~= texts(before).push(alt@));
                    texts(before).lemma_push_to_set_commute(alt@);
                }
                Product { alts, ..self }
            },
        }
    }

    /// The same product with the extra field `key` set to `value`, in place
    /// of what it held under that key.
    pub fn misc(self, key: &str, value: &str) -> (res: Product)
        ensures
            res@ == self@.with(Change::Misc(key@, value@)),
    {
        proof {
            use_type_invariant(&self);
        }
        let ghost before = self.misc@;
        let found = key_position(&self.misc, key);
        let mut misc = self.misc;
        match found {
            Some(i) => {
                misc.set(i, (key.to_owned(), value.to_owned()));
                proof {
                    assert(keys(misc@) =~= keys(before));
                }
            },
            None => {
                misc.push((key.to_owned(), value.to_owned()));
                proof {
                    assert(keys(misc@) =~= keys(before).push(key@));
                }
            },
        }
        proof {
            let after = misc@;
            let at: int = match found {
                Some(i) => i as int,
                None => before.len() as int,
            };
            assert(keys(after)[at] == key@);
            assert(keys(after).no_duplicates());
            assert forall|k: Seq<char>| keys(after).contains(k) <==> (k == key@ || keys(before).contains(
                k,
            )) by {
                if keys(before).contains(k) {
                    let j: int = keys(before).index_of(k);
                    assert(keys(after)[j] == k || keys(after)[j] == key@);
                }
            }
            assert forall|k: Seq<char>| keys(after).contains(k) implies #[trigger] pairs_map(after)[k]
                == pairs_map(before).insert(key@, value@)[k] by {
                let j: int = keys(after).index_of(k);
                assert(keys(after)[j] == k);
                assert(after[j].0@ == k);
                if k == key@ {
                    assert(j == at);
                } else {
                    assert(j != at);
                    assert(after[j] == before[j]);
                    lemma_key_found_in_place(before, j);
                }
            }
            assert(pairs_map(after) =~= pairs_map(before).insert(key@, value@));
        }
        Product { misc, ..self }
    }

    /// The barcode.
    pub fn get_ean13(&self) -> (res: Ean13)
        ensures
            res@ == self@.ean13,
    {
        self.ean13
    }

    /// The description.
    pub fn get_desc(&self) -> (res: String)
        ensures
            res@ == self@.desc,
    {
        self.desc.clone()
    }

    /// The vendor's stock code.
    pub fn get_sku(&self) -> (res: String)
        ensures
            res@ == self@.sku,
    {
        self.sku.clone()
    }

    /// The address of the image.
    pub fn get_img_url(&self) -> (res: String)
        ensures
            res@ == self@.img_url,
    {
        self.img_url.clone()
    }

    /// The manufacturer's suggested retail price.
    pub fn get_msrp(&self) -> (res: Decimal)
        ensures
            res@ == self@.msrp,
    {
        self.msrp
    }

    /// The minimum advertised price.
    pub fn get_imap(&self) -> (res: Decimal)
        ensures
            res@ == self@.imap,
    {
        self.imap
    }

    /// The wholesale cost.
    pub fn get_wholesale(&self) -> (res: Decimal)
        ensures
            res@ == self@.wholesale,
    {
        self.wholesale
    }

    /// Whether `alt` is one of the alternate identifiers.
    pub fn has_alt(&self, alt: &str) -> (res: bool)
        ensures
            res == self@.alts.contains(alt@),
    {
        match position(&self.alts, alt) {
            Some(i) => {
                assert(texts(self.alts@)[i as int] == alt@);
                true
            },
            None => false,
        }
    }

    /// How many alternate identifiers the product has.
    pub fn alt_count(&self) -> (res: usize)
        ensures
            res == self@.alts.len(),
            self@.alts.finite(),
    {
        proof {
            use_type_invariant(self);
            texts(self.alts@).unique_seq_to_set();
        }
        self.alts.len()
    }

    /// The alternate identifiers, each once, in no order that means anything.
    pub fn get_alts(&self) -> (res: Vec<String>)
        ensures
            texts(res@).no_duplicates(),
            texts(res@).to_set() == self@.alts,
    {
        proof {
            use_type_invariant(self);
        }
        let mut out: Vec<String> = Vec::new();
        let mut i: usize = 0;
        while i < self.alts.len()
            invariant
                i <= self.alts.len(),
                out.len() == i,
                texts(out@) == texts(self.alts@).take(i as int),
            decreases self.alts.len() - i,
        {
            let ghost before = out@;
            let alt = self.alts[i].clone();
            out.push(alt);
            proof {
                assert forall|j: int| 0 <= j < i + 1 implies texts(out@)[j] == texts(self.alts@)[j] by {
                    if j < i {
                        assert(texts(before)[j] == texts(self.alts@).take(i as int)[j]);
                    }
                }
                assert(texts(out@) =~= texts(self.alts@).take(i + 1));
            }
            i += 1;
        }
        proof {
            assert(texts(self.alts@).take(i as int) =~= texts(self.alts@));
        }
        out
    }

    /// The keys of the extra fields, each once, in no order that means anything.
    pub fn misc_keys(&self) -> (res: Vec<String>)
        ensures
            texts(res@).no_duplicates(),
            texts(res@).to_set() == self@.misc.dom(),
    {
        proof {
            use_type_invariant(self);
        }
        let mut out: Vec<String> = Vec::new();
        let mut i: usize = 0;
        while i < self.misc.len()
            invariant
                i <= self.misc.len(),
                out.len() == i,
                texts(out@) == keys(self.misc@).take(i as int),
            decreases self.misc.len() - i,
        {
            let ghost before = out@;
            let key = self.misc[i].0.clone();
            out.push(key);
            proof {
                assert forall|j: int| 0 <= j < i + 1 implies texts(out@)[j] == keys(self.misc@)[j] by {
                    if j < i {
                        assert(texts(before)[j] == keys(self.misc@).take(i as int)[j]);
                    }
                }
                assert(texts(out@) =~= keys(self.misc@).take(i + 1));
            }
            i += 1;
        }
        proof {
            assert(keys(self.misc@).take(i as int) =~= keys(self.misc@));
            assert(pairs_map(self.misc@).dom() =~= keys(self.misc@).to_set());
        }
        out
    }

    /// The value of the extra field `key`, if the product has that field.
    pub fn get_misc(&self, key: &str) -> (res: Option<String>)
        ensures
            match res {
                Some(value) => self@.misc.contains_key(key@) && self@.misc[key@] == value@,
                None => !self@.misc.contains_key(key@),
            },
    {
        proof {
            use_type_invariant(self);
        }
        match key_position(&self.misc, key) {
            Some(i) => {
                proof {
                    lemma_key_found_in_place(self.misc@, i as int);
                }
                Some(self.misc[i].1.clone())
            },
            None => None,
        }
    }
}

impl PartialEq for Product {
    /// Two products are equal when all their fields are: the alternate
    /// identifiers as a set, the extra fields as a map.
    fn eq(&self, other: &Product) -> (res: bool) {
        proof {
            use_type_invariant(self);
            use_type_invariant(other);
        }
        self.ean13 == other.ean13 && self.desc == other.desc && self.sku == other.sku
            && self.img_url == other.img_url && self.wholesale == other.wholesale && self.msrp
            == other.msrp && self.imap == other.imap && same_texts(&self.alts, &other.alts)
            && same_pairs(&self.misc, &other.misc)
    }
}

impl vstd::std_specs::cmp::PartialEqSpecImpl for Product {
    open spec fn obeys_eq_spec() -> bool {
        true
    }

    open spec fn eq_spec(&self, other: &Product) -> bool {
        self@ == other@
    }
}

impl Eq for Product {

}

impl Default for Product {
    fn default() -> (res: Product)
        ensures
            res@ == ProductView::initial(),
    {
        Product::new()
    }
}

} // verus!
