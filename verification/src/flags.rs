//! Permission flag-sets: the names that may stand in one, what each of
//! them grants, and the permissions that a whole set grants.

use crate::permissions::{PermissionVariants, Permissions};
use crate::text::{ends_with, starts_with, str_eq};
use vstd::prelude::*;

verus! {

/// The four kinds of access that have a level.
#[derive(Debug, Clone, Copy, PartialEq, Eq, Structural)]
pub enum Category {
    Read,
    Write,
    Indication,
    Notification,
}

/// What one flag of a set changes in the permissions.
#[derive(Debug, Clone, Copy, PartialEq, Eq, Structural)]
pub enum FlagEffect {
    Level(Category, PermissionVariants),
    WriteCommandAccepted,
    WriteRequestAccepted,
}

/// Whether a flag name counts towards a category: by its prefix, and for
/// the write category only if it does not end in `_ACCEPTED`.
pub open spec fn in_category(name: Seq<char>, category: Category) -> bool {
    match category {
        Category::Read => "READ_"@.is_prefix_of(name),
        Category::Write => "WRITE_"@.is_prefix_of(name) && !"_ACCEPTED"@.is_suffix_of(name),
        Category::Indication => "INDICATION_"@.is_prefix_of(name),
        Category::Notification => "NOTIFICATION_"@.is_prefix_of(name),
    }
}

/// How many names of a flag-set count towards a category.
pub open spec fn category_count(flags: Seq<Seq<char>>, category: Category) -> nat
    decreases flags.len(),
{
    if flags.len() == 0 {
        0
    } else {
        category_count(flags.drop_last(), category) + if in_category(flags.last(), category) {
            1nat
        } else {
            0nat
        }
    }
}

/// The first category, in the order read, write, indication,
/// notification, towards which more than one name counts.
pub open spec fn first_crowded(flags: Seq<Seq<char>>) -> Option<Category> {
    if category_count(flags, Category::Read) > 1 {
        Some(Category::Read)
    } else if category_count(flags, Category::Write) > 1 {
        Some(Category::Write)
    } else if category_count(flags, Category::Indication) > 1 {
        Some(Category::Indication)
    } else if category_count(flags, Category::Notification) > 1 {
        Some(Category::Notification)
    } else {
        None
    }
}

/// What a flag name grants; `None` for a name that is no flag.
pub open spec fn flag_effect(name: Seq<char>) -> Option<FlagEffect> {
    if name == "READ_ENABLED"@ {
        Some(FlagEffect::Level(Category::Read, PermissionVariants::Enabled))
    } else if name == "READ_AUTH"@ {
        Some(FlagEffect::Level(Category::Read, PermissionVariants::Auth))
    } else if name == "READ_UNAUTH"@ {
        Some(FlagEffect::Level(Category::Read, PermissionVariants::Unauth))
    } else if name == "READ_SECURE"@ {
        Some(FlagEffect::Level(Category::Read, PermissionVariants::Secure))
    } else if name == "WRITE_ENABLED"@ {
        Some(FlagEffect::Level(Category::Write, PermissionVariants::Enabled))
    } else if name == "WRITE_AUTH"@ {
        Some(FlagEffect::Level(Category::Write, PermissionVariants::Auth))
    } else if name == "WRITE_UNAUTH"@ {
        Some(FlagEffect::Level(Category::Write, PermissionVariants::Unauth))
    } else if name == "WRITE_SECURE"@ {
        Some(FlagEffect::Level(Category::Write, PermissionVariants::Secure))
    } else if name == "INDICATION_ENABLED"@ {
        Some(FlagEffect::Level(Category::Indication, PermissionVariants::Enabled))
    } else if name == "INDICATION_AUTH"@ {
        Some(FlagEffect::Level(Category::Indication, PermissionVariants::Auth))
    } else if name == "INDICATION_UNAUTH"@ {
        Some(FlagEffect::Level(Category::Indication, PermissionVariants::Unauth))
    } else if name == "INDICATION_SECURE"@ {
        Some(FlagEffect::Level(Category::Indication, PermissionVariants::Secure))
    } else if name == "NOTIFICATION_ENABLED"@ {
        Some(FlagEffect::Level(Category::Notification, PermissionVariants::Enabled))
    } else if name == "NOTIFICATION_AUTH"@ {
        Some(FlagEffect::Level(Category::Notification, PermissionVariants::Auth))
    } else if name == "NOTIFICATION_UNAUTH"@ {
        Some(FlagEffect::Level(Category::Notification, PermissionVariants::Unauth))
    } else if name == "NOTIFICATION_SECURE"@ {
        Some(FlagEffect::Level(Category::Notification, PermissionVariants::Secure))
    } else if name == "WRITE_COMMAND_ACCEPTED"@ {
        Some(FlagEffect::WriteCommandAccepted)
    } else if name == "WRITE_REQUEST_ACCEPTED"@ {
        Some(FlagEffect::WriteRequestAccepted)
    } else {
        None
    }
}

/// The permissions after one flag has been granted.
pub open spec fn with_effect(p: Permissions, effect: FlagEffect) -> Permissions {
    match effect {
        FlagEffect::Level(Category::Read, level) => Permissions { read: level, ..p },
        FlagEffect::Level(Category::Write, level) => Permissions { write: level, ..p },
        FlagEffect::Level(Category::Indication, level) => Permissions { indication: level, ..p },
        FlagEffect::Level(Category::Notification, level) => Permissions {
            notification: level,
            ..p
        },
        FlagEffect::WriteCommandAccepted => Permissions { write_command_accepted: true, ..p },
        FlagEffect::WriteRequestAccepted => Permissions { write_request_accepted: true, ..p },
    }
}

/// The permissions that a flag-set grants: starting with everything
/// disabled, each flag granted in turn.
pub open spec fn granted(flags: Seq<Seq<char>>) -> Permissions
    decreases flags.len(),
{
    if flags.len() == 0 {
        Permissions::spec_default()
    } else {
        match flag_effect(flags.last()) {
            Some(effect) => with_effect(granted(flags.drop_last()), effect),
            None => granted(flags.drop_last()),
        }
    }
}

/// The position of the first name, from `from` on, that is no flag.
pub open spec fn first_unknown(flags: Seq<Seq<char>>, from: int) -> Option<int>
    decreases flags.len() - from,
{
    if from < 0 || from >= flags.len() {
        None
    } else if flag_effect(flags[from]).is_none() {
        Some(from)
    } else {
        first_unknown(flags, from + 1)
    }
}

/// Why a flag-set grants no permissions.
#[derive(Debug, Clone, Copy, PartialEq, Eq, Structural)]
pub enum PermissionError {
    /// More than one flag of this category.
    MultiplePermissions(Category),
    /// The name at this position of the set is no flag.
    UnknownFlag(usize),
}

/// What a flag-set grants: an error for the first category with more
/// than one flag; where there is none, an error for the first name that
/// is no flag; and else its permissions.
pub open spec fn permissions_of(flags: Seq<Seq<char>>) -> Result<Permissions, PermissionError> {
    match first_crowded(flags) {
        Some(category) => Err(PermissionError::MultiplePermissions(category)),
        None => match first_unknown(flags, 0) {
            Some(position) => Err(PermissionError::UnknownFlag(position as usize)),
            None => Ok(granted(flags)),
        },
    }
}

/// A set of flag names, kept in the order in which they were first given.
#[derive(Debug, Clone)]
pub struct Flags {
    names: Vec<String>,
}

impl View for Flags {
    type V = Seq<Seq<char>>;

    closed spec fn view(&self) -> Seq<Seq<char>> {
        Seq::new(self.names@.len(), |i: int| self.names@[i]@)
    }
}

impl Flags {
    /// No name occurs twice.
    pub open spec fn wf(&self) -> bool {
        forall|i: int, j: int| 0 <= i < j < self@.len() ==> self@[i] != self@[j]
    }

    /// The empty set.
    pub fn new() -> (r: Flags)
        ensures
            r@ == Seq::<Seq<char>>::empty(),
            r.wf(),
    {
        let r = Flags { names: Vec::new() };
        assert(r@ =~= Seq::<Seq<char>>::empty());
        r
    }

    /// The number of names in the set.
    pub fn len(&self) -> (n: usize)
        ensures
            n == self@.len(),
    {
        self.names.len()
    }

    /// The name at position `i`.
    pub fn get(&self, i: usize) -> (name: &String)
        requires
            i < self@.len(),
        ensures
            name@ == self@[i as int],
    {
        &self.names[i]
    }

    /// The names of the set, in the order in which they were first given.
    pub fn names(&self) -> (r: Vec<String>)
        ensures
            Seq::new(r@.len(), |i: int| r@[i]@) == self@,
    {
        let mut out: Vec<String> = Vec::new();
        let mut i: usize = 0;
        while i < self.names.len()
            invariant
                0 <= i <= self.names.len(),
                out.len() == i,
                forall|k: int| 0 <= k < i ==> out@[k]@ == self@[k],
            decreases self.names.len() - i,
        {
            out.push(self.names[i].clone());
            i += 1;
        }
        assert(Seq::new(out@.len(), |i: int| out@[i]@) =~= self@);
        out
    }

    /// Whether the set holds `name`.
    pub fn contains(&self, name: &str) -> (r: bool)
        ensures
            r == self@.contains(name@),
    {
        let mut i: usize = 0;
        while i < self.names.len()
            invariant
                0 <= i <= self.names.len(),
                forall|k: int| 0 <= k < i ==> self@[k] != name@,
            decreases self.names.len() - i,
        {
            if str_eq(self.names[i].as_str(), name) {
                assert(self@[i as int] == name@);
                return true;
            }
            i += 1;
        }
        false
    }

    /// Adds `name` unless the set holds it; returns whether it was added.
    pub fn insert(&mut self, name: String) -> (added: bool)
        requires
            old(self).wf(),
        ensures
            final(self).wf(),
            added == !old(self)@.contains(name@),
            added ==> final(self)@ == old(self)@.push(name@),
            !added ==> final(self)@ == old(self)@,
    {
        if self.contains(name.as_str()) {
            false
        } else {
            let ghost before = self@;
            self.names.push(name);
            assert(self@ =~= before.push(name@));
            true
        }
    }
}

/// Whether a flag name counts towards a category.
pub fn name_in_category(name: &str, category: Category) -> (r: bool)
    ensures
        r == in_category(name@, category),
{
    match category {
        Category::Read => starts_with(name, "READ_"),
        Category::Write => starts_with(name, "WRITE_") && !ends_with(name, "_ACCEPTED"),
        Category::Indication => starts_with(name, "INDICATION_"),
        Category::Notification => starts_with(name, "NOTIFICATION_"),
    }
}

/// Counts the flags of a category.
pub fn count_in_category(flags: &Flags, category: Category) -> (n: usize)
    ensures
        n == category_count(flags@, category),
{
    let mut n: usize = 0;
    let mut i: usize = 0;
    assert(flags@.take(0) =~= Seq::empty());
    while i < flags.len()
        invariant
            0 <= i <= flags@.len(),
            n <= i,
            n == category_count(flags@.take(i as int), category),
        decreases flags@.len() - i,
    {
        assert(flags@.take(i + 1).drop_last() =~= flags@.take(i as int));
        if name_in_category(flags.get(i).as_str(), category) {
            n += 1;
        }
        i += 1;
    }
    assert(flags@.take(i as int) =~= flags@);
    n
}

/// What a flag name grants.
pub fn effect_of(name: &str) -> (r: Option<FlagEffect>)
    ensures
        r == flag_effect(name@),
{
    if str_eq(name, "READ_ENABLED") {
        Some(FlagEffect::Level(Category::Read, PermissionVariants::Enabled))
    } else if str_eq(name, "READ_AUTH") {
        Some(FlagEffect::Level(Category::Read, PermissionVariants::Auth))
    } else if str_eq(name, "READ_UNAUTH") {
        Some(FlagEffect::Level(Category::Read, PermissionVariants::Unauth))
    } else if str_eq(name, "READ_SECURE") {
        Some(FlagEffect::Level(Category::Read, PermissionVariants::Secure))
    } else if str_eq(name, "WRITE_ENABLED") {
        Some(FlagEffect::Level(Category::Write, PermissionVariants::Enabled))
    } else if str_eq(name, "WRITE_AUTH") {
        Some(FlagEffect::Level(Category::Write, PermissionVariants::Auth))
    } else if str_eq(name, "WRITE_UNAUTH") {
        Some(FlagEffect::Level(Category::Write, PermissionVariants::Unauth))
    } else if str_eq(name, "WRITE_SECURE") {
        Some(FlagEffect::Level(Category::Write, PermissionVariants::Secure))
    } else if str_eq(name, "INDICATION_ENABLED") {
        Some(FlagEffect::Level(Category::Indication, PermissionVariants::Enabled))
    } else if str_eq(name, "INDICATION_AUTH") {
        Some(FlagEffect::Level(Category::Indication, PermissionVariants::Auth))
    } else if str_eq(name, "INDICATION_UNAUTH") {
        Some(FlagEffect::Level(Category::Indication, PermissionVariants::Unauth))
    } else if str_eq(name, "INDICATION_SECURE") {
        Some(FlagEffect::Level(Category::Indication, PermissionVariants::Secure))
    } else if str_eq(name, "NOTIFICATION_ENABLED") {
        Some(FlagEffect::Level(Category::Notification, PermissionVariants::Enabled))
    } else if str_eq(name, "NOTIFICATION_AUTH") {
        Some(FlagEffect::Level(Category::Notification, PermissionVariants::Auth))
    } else if str_eq(name, "NOTIFICATION_UNAUTH") {
        Some(FlagEffect::Level(Category::Notification, PermissionVariants::Unauth))
    } else if str_eq(name, "NOTIFICATION_SECURE") {
        Some(FlagEffect::Level(Category::Notification, PermissionVariants::Secure))
    } else if str_eq(name, "WRITE_COMMAND_ACCEPTED") {
        Some(FlagEffect::WriteCommandAccepted)
    } else if str_eq(name, "WRITE_REQUEST_ACCEPTED") {
        Some(FlagEffect::WriteRequestAccepted)
    } else {
        None
    }
}

/// Grants one flag.
pub fn apply_effect(p: Permissions, effect: FlagEffect) -> (r: Permissions)
    ensures
        r == with_effect(p, effect),
{
    let mut r = p;
    match effect {
        FlagEffect::Level(Category::Read, level) => {
            r.read = level;
        },
        FlagEffect::Level(Category::Write, level) => {
            r.write = level;
        },
        FlagEffect::Level(Category::Indication, level) => {
            r.indication = level;
        },
        FlagEffect::Level(Category::Notification, level) => {
            r.notification = level;
        },
        FlagEffect::WriteCommandAccepted => {
            r.write_command_accepted = true;
        },
        FlagEffect::WriteRequestAccepted => {
            r.write_request_accepted = true;
        },
    }
    r
}

/// The first category with more than one flag, if any.
pub fn crowded_category(flags: &Flags) -> (r: Option<Category>)
    ensures
        r == first_crowded(flags@),
{
    if count_in_category(flags, Category::Read) > 1 {
        Some(Category::Read)
    } else if count_in_category(flags, Category::Write) > 1 {
        Some(Category::Write)
    } else if count_in_category(flags, Category::Indication) > 1 {
        Some(Category::Indication)
    } else if count_in_category(flags, Category::Notification) > 1 {
        Some(Category::Notification)
    } else {
        None
    }
}

/// The permissions that a flag-set grants.
pub fn permissions_of_flags(flags: &Flags) -> (r: Result<Permissions, PermissionError>)
    ensures
        r == permissions_of(flags@),
{
    match crowded_category(flags) {
        Some(category) => {
            return Err(PermissionError::MultiplePermissions(category));
        },
        None => {},
    }
    let mut permissions = Permissions::default();
    let mut i: usize = 0;
    assert(flags@.take(0) =~= Seq::empty());
    while i < flags.len()
        invariant
            0 <= i <= flags@.len(),
            first_crowded(flags@).is_none(),
            first_unknown(flags@, 0) == first_unknown(flags@, i as int),
            permissions == granted(flags@.take(i as int)),
        decreases flags@.len() - i,
    {
        let name = flags.get(i);
        assert(flags@.take(i + 1).drop_last() =~= flags@.take(i as int));
        match effect_of(name.as_str()) {
            Some(effect) => {
                permissions = apply_effect(permissions, effect);
            },
            None => {
                return Err(PermissionError::UnknownFlag(i));
            },
        }
        i += 1;
    }
    assert(flags@.take(i as int) =~= flags@);
    Ok(permissions)
}

/// No name of a flag-set that grants permissions is unknown, and the
/// first unknown name has only flags before it.
pub proof fn lemma_first_unknown(flags: Seq<Seq<char>>, from: int, i: int)
    requires
        0 <= from <= i < flags.len(),
    ensures
        first_unknown(flags, from).is_none() ==> flag_effect(flags[i]).is_some(),
        first_unknown(flags, from) matches Some(p) ==> from <= p < flags.len() && flag_effect(
            flags[p],
        ).is_none() && (i < p ==> flag_effect(flags[i]).is_some()),
    decreases i - from,
{
    if flag_effect(flags[from]).is_some() && from < i {
        lemma_first_unknown(flags, from + 1, i);
    } else if flag_effect(flags[from]).is_some() {
        lemma_unknown_after(flags, from + 1);
    }
}

/// The first unknown name from a position on lies at or after it.
pub proof fn lemma_unknown_after(flags: Seq<Seq<char>>, from: int)
    ensures
        first_unknown(flags, from) matches Some(p) ==> from <= p < flags.len() && flag_effect(
            flags[p],
        ).is_none(),
    decreases flags.len() - from,
{
    if 0 <= from < flags.len() && flag_effect(flags[from]).is_some() {
        lemma_unknown_after(flags, from + 1);
    }
}

/// The level that permissions hold for a category.
pub open spec fn level_of(p: Permissions, category: Category) -> PermissionVariants {
    match category {
        Category::Read => p.read,
        Category::Write => p.write,
        Category::Indication => p.indication,
        Category::Notification => p.notification,
    }
}

/// A flag-set counts at least one name towards the category of any of
/// its names.
pub proof fn lemma_counted(flags: Seq<Seq<char>>, category: Category, i: int)
    requires
        0 <= i < flags.len(),
        in_category(flags[i], category),
    ensures
        category_count(flags, category) >= 1,
    decreases flags.len(),
{
    if i < flags.len() - 1 {
        lemma_counted(flags.drop_last(), category, i);
    }
}

/// A flag-set that holds two names of one category has more than one
/// flag of that category, so it grants no permissions: the error names
/// that category or one that is looked at before it.
pub proof fn lemma_category_exclusive(flags: Seq<Seq<char>>, category: Category, i: int, j: int)
    requires
        0 <= i < j < flags.len(),
        in_category(flags[i], category),
        in_category(flags[j], category),
    ensures
        category_count(flags, category) > 1,
        first_crowded(flags).is_some(),
        category == Category::Read ==> first_crowded(flags) == Some(Category::Read),
    decreases flags.len(),
{
    if j < flags.len() - 1 {
        lemma_category_exclusive(flags.drop_last(), category, i, j);
    } else {
        lemma_counted(flags.drop_last(), category, i);
    }
}

/// A name whose first character differs from that of a prefix does not
/// begin with it.
proof fn lemma_other_prefix(name: Seq<char>, prefix: Seq<char>)
    requires
        name.len() > 0,
        prefix.len() > 0,
        name[0] != prefix[0],
    ensures
        !prefix.is_prefix_of(name),
{
    if prefix.len() <= name.len() {
        assert(name.subrange(0, prefix.len() as int)[0] == name[0]);
    }
}

/// A name that differs from a suffix at one place from its end does not
/// end with it.
proof fn lemma_other_suffix(name: Seq<char>, suffix: Seq<char>, k: int)
    requires
        0 <= k < suffix.len() <= name.len(),
        name[name.len() - suffix.len() + k] != suffix[k],
    ensures
        !suffix.is_suffix_of(name),
{
    assert(name.subrange(name.len() - suffix.len(), name.len() as int)[k] == name[name.len()
        - suffix.len() + k]);
}

/// Each flag that sets a level counts towards the category of that level
/// and towards no other; the two `_ACCEPTED` flags count towards none.
pub proof fn lemma_flag_categories(name: Seq<char>, category: Category)
    ensures
        match flag_effect(name) {
            Some(FlagEffect::Level(c, _)) => in_category(name, category) == (c == category),
            Some(_) => !in_category(name, category),
            None => true,
        },
{
    reveal_strlit("READ_");
    reveal_strlit("WRITE_");
    reveal_strlit("INDICATION_");
    reveal_strlit("NOTIFICATION_");
    reveal_strlit("_ACCEPTED");
    reveal_strlit("READ_ENABLED");
    reveal_strlit("READ_AUTH");
    reveal_strlit("READ_UNAUTH");
    reveal_strlit("READ_SECURE");
    reveal_strlit("WRITE_ENABLED");
    reveal_strlit("WRITE_AUTH");
    reveal_strlit("WRITE_UNAUTH");
    reveal_strlit("WRITE_SECURE");
    reveal_strlit("INDICATION_ENABLED");
    reveal_strlit("INDICATION_AUTH");
    reveal_strlit("INDICATION_UNAUTH");
    reveal_strlit("INDICATION_SECURE");
    reveal_strlit("NOTIFICATION_ENABLED");
    reveal_strlit("NOTIFICATION_AUTH");
    reveal_strlit("NOTIFICATION_UNAUTH");
    reveal_strlit("NOTIFICATION_SECURE");
    reveal_strlit("WRITE_COMMAND_ACCEPTED");
    reveal_strlit("WRITE_REQUEST_ACCEPTED");
    if name == "READ_ENABLED"@ {
        assert("READ_"@ =~= name.subrange(0, 5));
        lemma_other_prefix(name, "WRITE_"@);
        lemma_other_prefix(name, "INDICATION_"@);
        lemma_other_prefix(name, "NOTIFICATION_"@);
    } else if name == "READ_AUTH"@ {
        assert("READ_"@ =~= name.subrange(0, 5));
        lemma_other_prefix(name, "WRITE_"@);
        lemma_other_prefix(name, "INDICATION_"@);
        lemma_other_prefix(name, "NOTIFICATION_"@);
    } else if name == "READ_UNAUTH"@ {
        assert("READ_"@ =~= name.subrange(0, 5));
        lemma_other_prefix(name, "WRITE_"@);
        lemma_other_prefix(name, "INDICATION_"@);
        lemma_other_prefix(name, "NOTIFICATION_"@);
    } else if name == "READ_SECURE"@ {
        assert("READ_"@ =~= name.subrange(0, 5));
        lemma_other_prefix(name, "WRITE_"@);
        lemma_other_prefix(name, "INDICATION_"@);
        lemma_other_prefix(name, "NOTIFICATION_"@);
    } else if name == "WRITE_ENABLED"@ {
        lemma_other_prefix(name, "READ_"@);
        assert("WRITE_"@ =~= name.subrange(0, 6));
        lemma_other_prefix(name, "INDICATION_"@);
        lemma_other_prefix(name, "NOTIFICATION_"@);
        lemma_other_suffix(name, "_ACCEPTED"@, 0);
    } else if name == "WRITE_AUTH"@ {
        lemma_other_prefix(name, "READ_"@);
        assert("WRITE_"@ =~= name.subrange(0, 6));
        lemma_other_prefix(name, "INDICATION_"@);
        lemma_other_prefix(name, "NOTIFICATION_"@);
        lemma_other_suffix(name, "_ACCEPTED"@, 0);
    } else if name == "WRITE_UNAUTH"@ {
        lemma_other_prefix(name, "READ_"@);
        assert("WRITE_"@ =~= name.subrange(0, 6));
        lemma_other_prefix(name, "INDICATION_"@);
        lemma_other_prefix(name, "NOTIFICATION_"@);
        lemma_other_suffix(name, "_ACCEPTED"@, 0);
    } else if name == "WRITE_SECURE"@ {
        lemma_other_prefix(name, "READ_"@);
        assert("WRITE_"@ =~= name.subrange(0, 6));
        lemma_other_prefix(name, "INDICATION_"@);
        lemma_other_prefix(name, "NOTIFICATION_"@);
        lemma_other_suffix(name, "_ACCEPTED"@, 0);
    } else if name == "INDICATION_ENABLED"@ {
        lemma_other_prefix(name, "READ_"@);
        lemma_other_prefix(name, "WRITE_"@);
        assert("INDICATION_"@ =~= name.subrange(0, 11));
        lemma_other_prefix(name, "NOTIFICATION_"@);
    } else if name == "INDICATION_AUTH"@ {
        lemma_other_prefix(name, "READ_"@);
        lemma_other_prefix(name, "WRITE_"@);
        assert("INDICATION_"@ =~= name.subrange(0, 11));
        lemma_other_prefix(name, "NOTIFICATION_"@);
    } else if name == "INDICATION_UNAUTH"@ {
        lemma_other_prefix(name, "READ_"@);
        lemma_other_prefix(name, "WRITE_"@);
        assert("INDICATION_"@ =~= name.subrange(0, 11));
        lemma_other_prefix(name, "NOTIFICATION_"@);
    } else if name == "INDICATION_SECURE"@ {
        lemma_other_prefix(name, "READ_"@);
        lemma_other_prefix(name, "WRITE_"@);
        assert("INDICATION_"@ =~= name.subrange(0, 11));
        lemma_other_prefix(name, "NOTIFICATION_"@);
    } else if name == "NOTIFICATION_ENABLED"@ {
        lemma_other_prefix(name, "READ_"@);
        lemma_other_prefix(name, "WRITE_"@);
        lemma_other_prefix(name, "INDICATION_"@);
        assert("NOTIFICATION_"@ =~= name.subrange(0, 13));
    } else if name == "NOTIFICATION_AUTH"@ {
        lemma_other_prefix(name, "READ_"@);
        lemma_other_prefix(name, "WRITE_"@);
        lemma_other_prefix(name, "INDICATION_"@);
        assert("NOTIFICATION_"@ =~= name.subrange(0, 13));
    } else if name == "NOTIFICATION_UNAUTH"@ {
        lemma_other_prefix(name, "READ_"@);
        lemma_other_prefix(name, "WRITE_"@);
        lemma_other_prefix(name, "INDICATION_"@);
        assert("NOTIFICATION_"@ =~= name.subrange(0, 13));
    } else if name == "NOTIFICATION_SECURE"@ {
        lemma_other_prefix(name, "READ_"@);
        lemma_other_prefix(name, "WRITE_"@);
        lemma_other_prefix(name, "INDICATION_"@);
        assert("NOTIFICATION_"@ =~= name.subrange(0, 13));
    } else if name == "WRITE_COMMAND_ACCEPTED"@ {
        lemma_other_prefix(name, "READ_"@);
        assert("WRITE_"@ =~= name.subrange(0, 6));
        lemma_other_prefix(name, "INDICATION_"@);
        lemma_other_prefix(name, "NOTIFICATION_"@);
        assert("_ACCEPTED"@ =~= name.subrange(13, 22));
    } else if name == "WRITE_REQUEST_ACCEPTED"@ {
        lemma_other_prefix(name, "READ_"@);
        assert("WRITE_"@ =~= name.subrange(0, 6));
        lemma_other_prefix(name, "INDICATION_"@);
        lemma_other_prefix(name, "NOTIFICATION_"@);
        assert("_ACCEPTED"@ =~= name.subrange(13, 22));
    }
}

/// Where no category has more than one flag, the level of a category is
/// the level that its one flag sets.
pub proof fn lemma_granted_level(
    flags: Seq<Seq<char>>,
    i: int,
    category: Category,
    level: PermissionVariants,
)
    requires
        0 <= i < flags.len(),
        category_count(flags, category) <= 1,
        flag_effect(flags[i]) == Some(FlagEffect::Level(category, level)),
    ensures
        level_of(granted(flags), category) == level,
    decreases flags.len(),
{
    if i < flags.len() - 1 {
        let j = flags.len() - 1;
        lemma_flag_categories(flags[i], category);
        lemma_flag_categories(flags[j], category);
        if in_category(flags[j], category) {
            lemma_category_exclusive(flags, category, i, j);
        }
        lemma_granted_level(flags.drop_last(), i, category, level);
    }
}

/// Whether a name is a flag that sets the level of a category.
pub open spec fn sets_level(name: Seq<char>, category: Category) -> bool {
    match flag_effect(name) {
        Some(FlagEffect::Level(c, _)) => c == category,
        _ => false,
    }
}

/// A category of which the flag-set holds no flag stays disabled.
pub proof fn lemma_granted_disabled(flags: Seq<Seq<char>>, category: Category)
    requires
        forall|i: int| 0 <= i < flags.len() ==> !sets_level(#[trigger] flags[i], category),
    ensures
        level_of(granted(flags), category) == PermissionVariants::Disabled,
    decreases flags.len(),
{
    if flags.len() > 0 {
        let rest = flags.drop_last();
        assert forall|i: int| 0 <= i < rest.len() implies !sets_level(
            #[trigger] rest[i],
            category,
        ) by {
            assert(rest[i] == flags[i]);
        }
        lemma_granted_disabled(rest, category);
        assert(!sets_level(flags[flags.len() - 1], category));
    }
}

/// Of the flags that are no levels, a flag-set grants exactly the two
/// `_ACCEPTED` flags that it holds; the UUID class stays at 16 bits.
pub proof fn lemma_granted_flags(flags: Seq<Seq<char>>)
    ensures
        granted(flags).write_command_accepted == (exists|i: int|
            0 <= i < flags.len() && flag_effect(#[trigger] flags[i]) == Some(
                FlagEffect::WriteCommandAccepted,
            )),
        granted(flags).write_request_accepted == (exists|i: int|
            0 <= i < flags.len() && flag_effect(#[trigger] flags[i]) == Some(
                FlagEffect::WriteRequestAccepted,
            )),
        !granted(flags).extended_properties_present,
        !granted(flags).broadcast_permission,
        !granted(flags).encryption_key_length_16_bytes,
        !granted(flags).write_signed_accepted,
        granted(flags).uuid_length == crate::permissions::UuidLength::L16,
    decreases flags.len(),
{
    if flags.len() > 0 {
        let rest = flags.drop_last();
        let last = flags.len() - 1;
        lemma_granted_flags(rest);
        assert forall|i: int| 0 <= i < rest.len() implies rest[i] == flags[i] by {}
        if granted(rest).write_command_accepted {
            let i = choose|i: int|
                0 <= i < rest.len() && flag_effect(#[trigger] rest[i]) == Some(
                    FlagEffect::WriteCommandAccepted,
                );
            assert(flag_effect(flags[i]) == Some(FlagEffect::WriteCommandAccepted));
        }
        if granted(rest).write_request_accepted {
            let i = choose|i: int|
                0 <= i < rest.len() && flag_effect(#[trigger] rest[i]) == Some(
                    FlagEffect::WriteRequestAccepted,
                );
            assert(flag_effect(flags[i]) == Some(FlagEffect::WriteRequestAccepted));
        }
        if flag_effect(flags[last]) == Some(FlagEffect::WriteCommandAccepted) {
            assert(granted(flags).write_command_accepted);
        }
        if flag_effect(flags[last]) == Some(FlagEffect::WriteRequestAccepted) {
            assert(granted(flags).write_request_accepted);
        }
        if granted(flags).write_command_accepted && !granted(rest).write_command_accepted {
            assert(flag_effect(flags[last]) == Some(FlagEffect::WriteCommandAccepted));
        }
        if granted(flags).write_request_accepted && !granted(rest).write_request_accepted {
            assert(flag_effect(flags[last]) == Some(FlagEffect::WriteRequestAccepted));
        }
        if exists|i: int|
            0 <= i < flags.len() && flag_effect(#[trigger] flags[i]) == Some(
                FlagEffect::WriteCommandAccepted,
            ) {
            let i = choose|i: int|
                0 <= i < flags.len() && flag_effect(#[trigger] flags[i]) == Some(
                    FlagEffect::WriteCommandAccepted,
                );
            if i < last {
                assert(flag_effect(rest[i]) == Some(FlagEffect::WriteCommandAccepted));
            }
        }
        if exists|i: int|
            0 <= i < flags.len() && flag_effect(#[trigger] flags[i]) == Some(
                FlagEffect::WriteRequestAccepted,
            ) {
            let i = choose|i: int|
                0 <= i < flags.len() && flag_effect(#[trigger] flags[i]) == Some(
                    FlagEffect::WriteRequestAccepted,
                );
            if i < last {
                assert(flag_effect(rest[i]) == Some(FlagEffect::WriteRequestAccepted));
            }
        }
    }
}

} // verus!
