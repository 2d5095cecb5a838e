use vstd::prelude::*;

use crate::user::User;

verus! {

/// The key under which the acting user is stored.
pub const CONTEXT_KEY_USER: &'static str = "user";

/// A value that a context can carry. A floating-point number is carried as
/// the bits of its IEEE 754 double (`f64::to_bits`).
#[derive(Clone, Debug, PartialEq)]
pub enum Value {
    String(String),
    Integer(i64),
    Number(u64),
    Bool(bool),
    User(User),
    Null,
}

impl Value {
    /// A copy of this value.
    pub fn duplicate(&self) -> (r: Value)
        ensures
            r == *self,
    {
        match self {
            Value::String(s) => Value::String(s.clone()),
            Value::Integer(i) => Value::Integer(*i),
            Value::Number(n) => Value::Number(*n),
            Value::Bool(b) => Value::Bool(*b),
            Value::User(u) => Value::User(u.duplicate()),
            Value::Null => Value::Null,
        }
    }
}

/// The last value stored under `key` among `entries`, if any.
pub open spec fn entries_lookup(entries: Seq<(String, Value)>, key: Seq<char>) -> Option<Value>
    decreases entries.len(),
{
    if entries.len() == 0 {
        None
    } else if entries.last().0@ == key {
        Some(entries.last().1)
    } else {
        entries_lookup(entries.drop_last(), key)
    }
}

/// An immutable node of request-scoped values. A node derived with
/// `with_value` owns the node it was derived from as its parent and holds
/// only the new entry; a lookup reads the node, then its ancestors, so the
/// newest entry for a key wins and the parent itself is never changed.
pub struct Context {
    /// The context this one was derived from; `None` for a root context.
    parent_ctx: Option<Box<Context>>,
    /// The entries of this node, the newest last.
    values: Vec<(String, Value)>,
}

impl Context {
    /// The value under `key`: the newest one of this node, else the one its
    /// ancestors give.
    pub closed spec fn lookup(&self, key: Seq<char>) -> Option<Value>
        decreases self,
    {
        match entries_lookup(self.values@, key) {
            Some(v) => Some(v),
            None => match self.parent_ctx {
                Some(p) => p.lookup(key),
                None => None,
            },
        }
    }

    /// The acting user: the user stored under the user key, if a user is
    /// stored there.
    pub open spec fn acting_user(&self) -> Option<User> {
        match self.lookup(CONTEXT_KEY_USER@) {
            Some(Value::User(u)) => Some(u),
            _ => None,
        }
    }

    /// The acting user's id, or zero where no user acts.
    pub open spec fn acting_id(&self) -> i64 {
        match self.acting_user() {
            Some(u) => u.id,
            None => 0,
        }
    }

    /// A context that holds nothing, for when it is not yet known which
    /// context to use.
    #[allow(non_snake_case)]
    pub fn TODO() -> (r: Context)
        ensures
            forall|k: Seq<char>| r.lookup(k).is_none(),
    {
        Context { parent_ctx: None, values: Vec::new() }
    }

    /// A root context that holds nothing.
    pub fn background() -> (r: Context)
        ensures
            forall|k: Seq<char>| r.lookup(k).is_none(),
    {
        Context { parent_ctx: None, values: Vec::new() }
    }

    fn local_value(&self, key: &String) -> (r: Option<Value>)
        ensures
            r == entries_lookup(self.values@, key@),
    {
        let mut i: usize = self.values.len();
        assert(self.values@.take(i as int) =~= self.values@);
        while i > 0
            invariant
                i <= self.values.len(),
                entries_lookup(self.values@, key@) == entries_lookup(
                    self.values@.take(i as int),
                    key@,
                ),
            decreases i,
        {
            let ghost prefix = self.values@.take(i as int);
            assert(prefix.last() == self.values@[i - 1]);
            if self.values[i - 1].0 == *key {
                return Some(self.values[i - 1].1.duplicate());
            }
            assert(prefix.drop_last() =~= self.values@.take(i - 1));
            i = i - 1;
        }
        assert(self.values@.take(0) =~= Seq::<(String, Value)>::empty());
        None
    }

    /// Returns the value stored under `key`, looking in this context and then
    /// in its ancestors; `None` where none holds the key.
    pub fn value(&self, key: String) -> (r: Option<Value>)
        ensures
            r == self.lookup(key@),
        decreases self,
    {
        match self.local_value(&key) {
            Some(v) => Some(v),
            None => match &self.parent_ctx {
                Some(p) => p.value(key),
                None => None,
            },
        }
    }

    /// Returns a context derived from `ctx` in which `key` holds `value`; every
    /// other key keeps what `ctx` gives it.
    pub fn with_value(ctx: Context, key: String, value: Value) -> (r: Context)
        ensures
            r.lookup(key@) == Some(value),
            forall|k: Seq<char>| k != key@ ==> r.lookup(k) == ctx.lookup(k),
    {
        let mut values: Vec<(String, Value)> = Vec::new();
        values.push((key, value));
        let r = Context { parent_ctx: Some(Box::new(ctx)), values };
        assert(r.values@.drop_last() =~= Seq::<(String, Value)>::empty());
        assert forall|k: Seq<char>| k != key@ implies r.lookup(k) == ctx.lookup(k) by {
            assert(entries_lookup(r.values@, k) == entries_lookup(r.values@.drop_last(), k));
        }
        r
    }

    /// Returns a context derived from `ctx` in which `user` acts.
    pub fn with_user(ctx: Context, user: User) -> (r: Context)
        ensures
            r.acting_user() == Some(user),
            forall|k: Seq<char>| k != CONTEXT_KEY_USER@ ==> r.lookup(k) == ctx.lookup(k),
    {
        Context::with_value(ctx, String::from_str(CONTEXT_KEY_USER), Value::User(user))
    }

    /// Returns the acting user, if a user is stored under the user key.
    pub fn user_from_context(ctx: &Context) -> (r: Option<User>)
        ensures
            r == ctx.acting_user(),
    {
        match ctx.value(String::from_str(CONTEXT_KEY_USER)) {
            Some(Value::User(user)) => Some(user),
            _ => None,
        }
    }

    /// Returns the acting user's id, or zero where no user acts.
    pub fn user_id_from_context(ctx: &Context) -> (r: i64)
        ensures
            r == ctx.acting_id(),
    {
        match Context::user_from_context(ctx) {
            Some(user) => user.id,
            None => 0,
        }
    }
}

} // verus!
