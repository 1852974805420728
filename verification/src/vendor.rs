//! Package vendors: the well-known namespaces and the sets of them that a
//! result record keeps.

use vstd::prelude::*;
use crate::text::{chars_of, starts_with};

verus! {

/// The namespace a package belongs to: one of the well-known vendors, or
/// `Other` for everything else.
#[derive(Debug, Clone, Copy, PartialEq, Eq, Structural, PartialOrd, Ord, Hash)]
pub enum Vendor {
    Symfony,
    Laravel,
    Doctrine,
    Phpunit,
    Twig,
    Illuminate,
    Other,
}

/// Where the first `/` of `package` stands; `package.len()` when it has none.
pub open spec fn first_slash(package: Seq<char>) -> int
    decreases package.len(),
{
    if package.len() == 0 {
        0
    } else if package[0] == '/' {
        0
    } else {
        1 + first_slash(package.drop_first())
    }
}

/// The vendor segment of a package name: what stands before its first `/`.
pub open spec fn first_segment(package: Seq<char>) -> Seq<char> {
    package.take(first_slash(package))
}

/// `first_slash` is the least index that holds a `/`.
pub proof fn lemma_first_slash(package: Seq<char>)
    ensures
        0 <= first_slash(package) <= package.len(),
        forall|i: int| 0 <= i < first_slash(package) ==> package[i] != '/',
        first_slash(package) < package.len() ==> package[first_slash(package)] == '/',
        first_slash(package) < package.len() <==> package.contains('/'),
    decreases package.len(),
{
    if package.len() > 0 && package[0] != '/' {
        let rest = package.drop_first();
        lemma_first_slash(rest);
        assert forall|i: int| 0 <= i < first_slash(package) implies package[i] != '/' by {
            if i > 0 {
                assert(rest[i - 1] == package[i]);
            }
        }
        if first_slash(package) < package.len() {
            assert(rest[first_slash(rest)] == package[first_slash(package)]);
        }
        if package.contains('/') {
            let i = choose|i: int| 0 <= i < package.len() && package[i] == '/';
            assert(rest[i - 1] == '/');
        }
    } else if package.len() > 0 {
        assert(package[0] == '/');
    }
}

impl Vendor {
    /// The name prefix that marks a package of this vendor; empty for `Other`.
    pub open spec fn prefix(self) -> Seq<char> {
        match self {
            Vendor::Symfony => "symfony/"@,
            Vendor::Laravel => "laravel/"@,
            Vendor::Doctrine => "doctrine/"@,
            Vendor::Phpunit => "phpunit/"@,
            Vendor::Twig => "twig/"@,
            Vendor::Illuminate => "illuminate/"@,
            Vendor::Other => ""@,
        }
    }

    /// The vendor's bare name, as shown in a report; empty for `Other`.
    pub open spec fn bare_name(self) -> Seq<char> {
        match self {
            Vendor::Symfony => "symfony"@,
            Vendor::Laravel => "laravel"@,
            Vendor::Doctrine => "doctrine"@,
            Vendor::Phpunit => "phpunit"@,
            Vendor::Twig => "twig"@,
            Vendor::Illuminate => "illuminate"@,
            Vendor::Other => ""@,
        }
    }

    /// Every vendor but `Other` is well known.
    pub open spec fn well_known(self) -> bool {
        self != Vendor::Other
    }

    /// The vendor of a package name: the well-known vendor whose prefix the
    /// name starts with, `Other` when it starts with none of them.
    pub open spec fn classify(package: Seq<char>) -> Vendor {
        if Vendor::Symfony.prefix().is_prefix_of(package) {
            Vendor::Symfony
        } else if Vendor::Laravel.prefix().is_prefix_of(package) {
            Vendor::Laravel
        } else if Vendor::Doctrine.prefix().is_prefix_of(package) {
            Vendor::Doctrine
        } else if Vendor::Phpunit.prefix().is_prefix_of(package) {
            Vendor::Phpunit
        } else if Vendor::Twig.prefix().is_prefix_of(package) {
            Vendor::Twig
        } else if Vendor::Illuminate.prefix().is_prefix_of(package) {
            Vendor::Illuminate
        } else {
            Vendor::Other
        }
    }

    /// The vendor that a vendor segment names.
    pub open spec fn named(segment: Seq<char>) -> Vendor {
        if segment == Vendor::Symfony.bare_name() {
            Vendor::Symfony
        } else if segment == Vendor::Laravel.bare_name() {
            Vendor::Laravel
        } else if segment == Vendor::Doctrine.bare_name() {
            Vendor::Doctrine
        } else if segment == Vendor::Phpunit.bare_name() {
            Vendor::Phpunit
        } else if segment == Vendor::Twig.bare_name() {
            Vendor::Twig
        } else if segment == Vendor::Illuminate.bare_name() {
            Vendor::Illuminate
        } else {
            Vendor::Other
        }
    }

    /// The prefix that package names of this vendor start with.
    pub fn as_str(&self) -> (r: &'static str)
        ensures
            r@ == self.prefix(),
    {
        match self {
            Vendor::Symfony => "symfony/",
            Vendor::Laravel => "laravel/",
            Vendor::Doctrine => "doctrine/",
            Vendor::Phpunit => "phpunit/",
            Vendor::Twig => "twig/",
            Vendor::Illuminate => "illuminate/",
            Vendor::Other => "",
        }
    }

    /// The vendor's name without the trailing `/`.
    pub fn name(&self) -> (r: &'static str)
        ensures
            r@ == self.bare_name(),
    {
        match self {
            Vendor::Symfony => "symfony",
            Vendor::Laravel => "laravel",
            Vendor::Doctrine => "doctrine",
            Vendor::Phpunit => "phpunit",
            Vendor::Twig => "twig",
            Vendor::Illuminate => "illuminate",
            Vendor::Other => "",
        }
    }

    /// Whether this is one of the well-known vendors.
    pub fn is_well_known(&self) -> (r: bool)
        ensures
            r == self.well_known(),
    {
        !matches!(self, Vendor::Other)
    }

    /// Classifies a package by its `vendor/project` name.
    pub fn from_package(package: &str) -> (r: Vendor)
        ensures
            r == Vendor::classify(package@),
    {
        let name = chars_of(package);
        if starts_with(&name, "symfony/") {
            Vendor::Symfony
        } else if starts_with(&name, "laravel/") {
            Vendor::Laravel
        } else if starts_with(&name, "doctrine/") {
            Vendor::Doctrine
        } else if starts_with(&name, "phpunit/") {
            Vendor::Phpunit
        } else if starts_with(&name, "twig/") {
            Vendor::Twig
        } else if starts_with(&name, "illuminate/") {
            Vendor::Illuminate
        } else {
            Vendor::Other
        }
    }
}

/// Spells out the characters of the vendor names and prefixes.
pub proof fn lemma_vendor_names()
    ensures
        forall|v: Vendor| v.well_known() ==> #[trigger] v.prefix() == v.bare_name().push('/'),
        forall|v: Vendor| #![trigger v.bare_name()] !v.bare_name().contains('/'),
        forall|v: Vendor, w: Vendor| v.bare_name() == w.bare_name() ==> v == w,
{
    reveal_strlit("symfony/");
    reveal_strlit("laravel/");
    reveal_strlit("doctrine/");
    reveal_strlit("phpunit/");
    reveal_strlit("twig/");
    reveal_strlit("illuminate/");
    reveal_strlit("symfony");
    reveal_strlit("laravel");
    reveal_strlit("doctrine");
    reveal_strlit("phpunit");
    reveal_strlit("twig");
    reveal_strlit("illuminate");
    reveal_strlit("");
    assert forall|v: Vendor, w: Vendor| v.bare_name() == w.bare_name() implies v == w by {
        if v != w {
            assert(v.bare_name().len() != w.bare_name().len() || v.bare_name()[0] != w.bare_name()[0]);
        }
    }
}

/// A name followed by `/` is a prefix of a package name exactly when the
/// package's vendor segment is that name.
pub proof fn lemma_prefix_is_segment(name: Seq<char>, package: Seq<char>)
    requires
        !name.contains('/'),
    ensures
        name.push('/').is_prefix_of(package) <==> (package.contains('/') && first_segment(package)
            == name),
{
    lemma_first_slash(package);
    let lit = name.push('/');
    let k = first_slash(package);
    if lit.is_prefix_of(package) {
        assert(package[name.len() as int] == lit[name.len() as int]);
        assert forall|i: int| 0 <= i < name.len() implies package[i] != '/' by {
            assert(package[i] == lit[i]);
        }
        assert(first_segment(package) =~= name);
    }
    if package.contains('/') && first_segment(package) == name {
        assert(k == name.len());
    }
}

/// A package name without a `/` belongs to no well-known vendor; one with a
/// `/` belongs to the vendor that its first segment names.
pub proof fn lemma_classify_by_segment(package: Seq<char>)
    ensures
        Vendor::classify(package) == if package.contains('/') {
            Vendor::named(first_segment(package))
        } else {
            Vendor::Other
        },
{
    lemma_vendor_names();
    lemma_prefix_is_segment(Vendor::Symfony.bare_name(), package);
    lemma_prefix_is_segment(Vendor::Laravel.bare_name(), package);
    lemma_prefix_is_segment(Vendor::Doctrine.bare_name(), package);
    lemma_prefix_is_segment(Vendor::Phpunit.bare_name(), package);
    lemma_prefix_is_segment(Vendor::Twig.bare_name(), package);
    lemma_prefix_is_segment(Vendor::Illuminate.bare_name(), package);
}

/// The vendor of a package depends on nothing but the name's first path
/// segment: two names of the form `vendor/project` with the same vendor
/// segment are classified alike.
pub proof fn lemma_vendor_depends_on_first_segment(p: Seq<char>, q: Seq<char>)
    requires
        p.contains('/'),
        q.contains('/'),
        first_segment(p) == first_segment(q),
    ensures
        Vendor::classify(p) == Vendor::classify(q),
{
    lemma_classify_by_segment(p);
    lemma_classify_by_segment(q);
}

/// A package whose vendor segment is the name of no well-known vendor is
/// classified as `Other`.
pub proof fn lemma_classify_unknown(package: Seq<char>)
    requires
        forall|v: Vendor| v.well_known() ==> first_segment(package) != #[trigger] v.bare_name(),
    ensures
        Vendor::classify(package) == Vendor::Other,
{
    lemma_classify_by_segment(package);
}

/// Whatever follows the prefix, a name that starts with a well-known vendor's
/// prefix is classified as that vendor.
pub proof fn lemma_classify_prefixed(v: Vendor, project: Seq<char>)
    ensures
        v.well_known() ==> Vendor::classify(v.prefix() + project) == v,
{
    if v.well_known() {
        lemma_vendor_names();
        let p = v.prefix() + project;
        lemma_classify_by_segment(p);
        lemma_prefix_is_segment(v.bare_name(), p);
    }
}

/// A set of vendors.
#[derive(Debug, Clone, Copy, PartialEq, Eq, Structural)]
pub struct VendorSet {
    symfony: bool,
    laravel: bool,
    doctrine: bool,
    phpunit: bool,
    twig: bool,
    illuminate: bool,
    other: bool,
}

impl View for VendorSet {
    type V = Set<Vendor>;

    closed spec fn view(&self) -> Set<Vendor> {
        Set::new(|v: Vendor| self.holds(v))
    }
}

impl VendorSet {
    spec fn holds(self, v: Vendor) -> bool {
        match v {
            Vendor::Symfony => self.symfony,
            Vendor::Laravel => self.laravel,
            Vendor::Doctrine => self.doctrine,
            Vendor::Phpunit => self.phpunit,
            Vendor::Twig => self.twig,
            Vendor::Illuminate => self.illuminate,
            Vendor::Other => self.other,
        }
    }

    /// The empty set.
    pub fn new() -> (r: VendorSet)
        ensures
            r@ == Set::<Vendor>::empty(),
    {
        let r = VendorSet {
            symfony: false,
            laravel: false,
            doctrine: false,
            phpunit: false,
            twig: false,
            illuminate: false,
            other: false,
        };
        r
    }

    /// Adds `v`; returns whether it was new to the set.
    pub fn insert(&mut self, v: Vendor) -> (added: bool)
        ensures
            final(self)@ == old(self)@.insert(v),
            added == !old(self)@.contains(v),
    {
        let had = self.contains(v);
        match v {
            Vendor::Symfony => { self.symfony = true; },
            Vendor::Laravel => { self.laravel = true; },
            Vendor::Doctrine => { self.doctrine = true; },
            Vendor::Phpunit => { self.phpunit = true; },
            Vendor::Twig => { self.twig = true; },
            Vendor::Illuminate => { self.illuminate = true; },
            Vendor::Other => { self.other = true; },
        }
        !had
    }

    /// Whether `v` is in the set.
    pub fn contains(&self, v: Vendor) -> (r: bool)
        ensures
            r == self@.contains(v),
    {
        match v {
            Vendor::Symfony => self.symfony,
            Vendor::Laravel => self.laravel,
            Vendor::Doctrine => self.doctrine,
            Vendor::Phpunit => self.phpunit,
            Vendor::Twig => self.twig,
            Vendor::Illuminate => self.illuminate,
            Vendor::Other => self.other,
        }
    }

    /// Whether the set has no member.
    pub fn is_empty(&self) -> (r: bool)
        ensures
            r == (self@ == Set::<Vendor>::empty()),
    {
        let r = !(self.symfony || self.laravel || self.doctrine || self.phpunit || self.twig
            || self.illuminate || self.other);
        proof {
            if r {
                assert(self@ =~= Set::<Vendor>::empty());
            } else {
                let v = if self.symfony {
                    Vendor::Symfony
                } else if self.laravel {
                    Vendor::Laravel
                } else if self.doctrine {
                    Vendor::Doctrine
                } else if self.phpunit {
                    Vendor::Phpunit
                } else if self.twig {
                    Vendor::Twig
                } else if self.illuminate {
                    Vendor::Illuminate
                } else {
                    Vendor::Other
                };
                assert(self@.contains(v));
            }
        }
        r
    }

    /// The number of members.
    pub fn len(&self) -> (r: usize)
        ensures
            self@.finite(),
            r == self@.len(),
    {
        let mut n: usize = 0;
        let ghost mut seen = Set::<Vendor>::empty();
        if self.symfony {
            n += 1;
            proof { seen = seen.insert(Vendor::Symfony); }
        }
        if self.laravel {
            n += 1;
            proof { seen = seen.insert(Vendor::Laravel); }
        }
        if self.doctrine {
            n += 1;
            proof { seen = seen.insert(Vendor::Doctrine); }
        }
        if self.phpunit {
            n += 1;
            proof { seen = seen.insert(Vendor::Phpunit); }
        }
        if self.twig {
            n += 1;
            proof { seen = seen.insert(Vendor::Twig); }
        }
        if self.illuminate {
            n += 1;
            proof { seen = seen.insert(Vendor::Illuminate); }
        }
        if self.other {
            n += 1;
            proof { seen = seen.insert(Vendor::Other); }
        }
        assert(seen =~= self@);
        n
    }
}

} // verus!
