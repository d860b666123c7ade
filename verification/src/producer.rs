//! The programs that have registered to produce frames.
use vstd::prelude::*;
use crate::text;
use crate::text::same;

verus! {

#[derive(Debug)]
pub struct Producer {
    pub id: String,
    pub name: String,
    pub ty: String,
    pub created_at: String,
}

pub struct ProducerView {
    pub id: Seq<char>,
    pub name: Seq<char>,
    pub ty: Seq<char>,
    pub created_at: Seq<char>,
}

impl View for Producer {
    type V = ProducerView;

    open spec fn view(&self) -> ProducerView {
        ProducerView {
            id: self.id@,
            name: self.name@,
            ty: self.ty@,
            created_at: self.created_at@,
        }
    }
}

impl Clone for Producer {
    fn clone(&self) -> (copy: Self)
        ensures
            copy@ == self@,
    {
        Producer {
            id: self.id.clone(),
            name: self.name.clone(),
            ty: self.ty.clone(),
            created_at: self.created_at.clone(),
        }
    }
}

/// 36 characters in groups of 8, 4, 4, 4 and 12 with hyphens between them,
/// the third group starting with the version 4 and the fourth with the variant.
pub open spec fn is_random_id(id: Seq<char>) -> bool {
    &&& id.len() == 36
    &&& id[8] == '-' && id[13] == '-' && id[18] == '-' && id[23] == '-'
    &&& id[14] == '4'
    &&& id[19] == '8' || id[19] == '9' || id[19] == 'a' || id[19] == 'b'
    &&& forall|i: int|
        0 <= i < 36 && i != 8 && i != 13 && i != 18 && i != 23 ==> text::is_digit(#[trigger] id[i])
            || 'a' <= id[i] <= 'f'
}

/// `uuid::Uuid::new_v4` makes a random id; its text is hyphenated lower case
/// hexadecimal of version 4. Which id comes is left to chance. It panics where
/// the system gives no random bytes.
#[verifier::external_body]
pub(crate) fn random_id() -> (id: String)
    ensures
        is_random_id(id@),
{
    uuid::Uuid::new_v4().to_string()
}

/// A time in Greenwich as RFC 3339 writes it.
pub open spec fn is_utc_time(time: Seq<char>) -> bool {
    &&& time.len() >= 6
    &&& time.skip(time.len() - 6) == "+00:00"@
    &&& time.contains('T')
}

/// `chrono::Utc::now` reads the clock, and `to_rfc3339` writes the time with
/// the letter T before the hours and the offset of Greenwich at the end. Which
/// time it is, is left to the clock; `now` panics where that stands before 1970.
#[verifier::external_body]
fn current_time() -> (time: String)
    ensures
        is_utc_time(time@),
{
    chrono::Utc::now().to_rfc3339()
}

/// The producers without those of an id.
pub open spec fn without(producers: Seq<ProducerView>, id: Seq<char>) -> Seq<ProducerView> {
    producers.filter(|p: ProducerView| p.id != id)
}

/// The registered producers in the order of their registration.
pub struct ProducerManager {
    producers: Vec<Producer>,
}

impl View for ProducerManager {
    type V = Seq<ProducerView>;

    closed spec fn view(&self) -> Seq<ProducerView> {
        text::views(self.producers@)
    }
}

impl ProducerManager {
    pub fn new() -> (manager: Self)
        ensures
            manager@ == Seq::<ProducerView>::empty(),
    {
        let manager = ProducerManager { producers: Vec::new() };
        assert(manager@ =~= Seq::<ProducerView>::empty());
        manager
    }

    /// Registers a producer under a fresh id.
    pub fn register(&mut self, name: &str, ty: &str) -> (producer: Producer)
        ensures
            final(self)@ == old(self)@.push(producer@),
            producer@.name == name@,
            producer@.ty == ty@,
            is_random_id(producer@.id),
            is_utc_time(producer@.created_at),
    {
        let id = random_id();
        let created_at = current_time();
        self.register_as(id, name, ty, created_at)
    }

    /// Registers a producer under a given id and time.
    pub fn register_as(
        &mut self,
        id: String,
        name: &str,
        ty: &str,
        created_at: String,
    ) -> (producer: Producer)
        ensures
            producer@ == (ProducerView {
                id: id@,
                name: name@,
                ty: ty@,
                created_at: created_at@,
            }),
            final(self)@ == old(self)@.push(producer@),
    {
        let producer = Producer { id, name: name.to_owned(), ty: ty.to_owned(), created_at };
        let kept = producer.clone();
        proof {
            text::lemma_views_push(self.producers@, kept);
        }
        self.producers.push(kept);
        producer
    }

    /// The first producer with an id.
    pub fn get_producer(&self, id: &str) -> (r: Option<Producer>)
        ensures
            match r {
                Some(producer) => exists|i: int|
                    0 <= i < self@.len() && #[trigger] self@[i] == producer@ && self@[i].id == id@
                        && forall|j: int| 0 <= j < i ==> (#[trigger] self@[j]).id != id@,
                None => forall|i: int| 0 <= i < self@.len() ==> (#[trigger] self@[i]).id != id@,
            },
    {
        let mut i: usize = 0;
        while i < self.producers.len()
            invariant
                i <= self.producers.len(),
                forall|j: int| 0 <= j < i ==> (#[trigger] self@[j]).id != id@,
            decreases self.producers.len() - i,
        {
            assert(self@[i as int] == self.producers@[i as int]@);
            if same(self.producers[i].id.as_str(), id) {
                return Some(self.producers[i].clone());
            }
            i = i + 1;
        }
        None
    }

    /// Takes out the producers with an id, and says whether there were any.
    pub fn remove_producer(&mut self, id: &str) -> (removed: bool)
        ensures
            final(self)@ == without(old(self)@, id@),
            removed <==> exists|i: int| 0 <= i < old(self)@.len() && (#[trigger] old(self)@[i]).id
                == id@,
    {
        let ghost before = self@;
        let ghost keep = |p: ProducerView| p.id != id@;
        let ghost mut done: int = 0;
        let mut i: usize = 0;
        let mut removed = false;
        assert(before.take(0).filter(keep) =~= Seq::<ProducerView>::empty()) by {
            reveal(Seq::filter);
        }
        assert(before.skip(0) =~= before);
        assert(self@ =~= before.take(0).filter(keep) + before.skip(0));
        while i < self.producers.len()
            invariant
                keep == (|p: ProducerView| p.id != id@),
                0 <= done <= before.len(),
                i <= self.producers@.len(),
                self@ == before.take(done).filter(keep) + before.skip(done),
                before.take(done).filter(keep).len() == i,
                removed <==> exists|j: int| 0 <= j < done && (#[trigger] before[j]).id == id@,
            decreases self.producers@.len() - i,
        {
            let ghost now = self@;
            let ghost kept = before.take(done).filter(keep);
            proof {
                assert(now[i as int] == before.skip(done)[0]);
                assert(now[i as int] == self.producers@[i as int]@);
                assert(before.take(done + 1).drop_last() =~= before.take(done));
                assert(before.take(done + 1).last() == before[done]);
                reveal(Seq::filter);
            }
            if same(self.producers[i].id.as_str(), id) {
                let ghost all = self.producers@;
                let _ = self.producers.remove(i);
                removed = true;
                proof {
                    assert(self@ =~= now.remove(i as int)) by {
                        assert(self.producers@ =~= all.remove(i as int));
                    }
                    assert(before[done].id == id@);
                    assert(self@ =~= kept + before.skip(done + 1));
                }
            } else {
                i = i + 1;
                assert(self@ =~= kept.push(before[done]) + before.skip(done + 1));
            }
            proof {
                done = done + 1;
            }
        }
        proof {
            assert(done == before.len());
            assert(before.take(done) =~= before);
            assert(before.skip(done) =~= Seq::<ProducerView>::empty());
            assert(self@ =~= before.filter(keep));
        }
        removed
    }

    pub fn list_producers(&self) -> (producers: Vec<Producer>)
        ensures
            text::views(producers@) == self@,
    {
        text::copy_list(&self.producers)
    }
}

// ---------------------------------------------------------------------------
// Laws

/// No producer with the id is left once it was removed, and every other one
/// is.
pub proof fn law_removed_is_gone(producers: Seq<ProducerView>, id: Seq<char>)
    ensures
        forall|i: int|
            0 <= i < without(producers, id).len() ==> (#[trigger] without(producers, id)[i]).id
                != id,
        forall|i: int|
            0 <= i < producers.len() && (#[trigger] producers[i]).id != id ==> without(
                producers,
                id,
            ).contains(producers[i]),
{
    let keep = |p: ProducerView| p.id != id;
    assert forall|i: int| 0 <= i < without(producers, id).len() implies (#[trigger] without(
        producers,
        id,
    )[i]).id != id by {
        producers.lemma_filter_pred(keep, i);
    }
    assert forall|i: int| 0 <= i < producers.len() && (#[trigger] producers[i]).id
        != id implies without(producers, id).contains(producers[i]) by {
        producers.lemma_filter_contains(keep, i);
    }
}

/// To remove a producer that was just registered under a new id leaves all as
/// it was.
pub proof fn law_remove_undoes_register(producers: Seq<ProducerView>, producer: ProducerView)
    requires
        forall|i: int| 0 <= i < producers.len() ==> (#[trigger] producers[i]).id != producer.id,
    ensures
        without(producers.push(producer), producer.id) == producers,
{
    let keep = |p: ProducerView| p.id != producer.id;
    reveal(Seq::filter);
    assert(producers.push(producer).drop_last() =~= producers);
    lemma_all_kept(producers, keep);
}

proof fn lemma_all_kept(producers: Seq<ProducerView>, keep: spec_fn(ProducerView) -> bool)
    requires
        forall|i: int| 0 <= i < producers.len() ==> keep(#[trigger] producers[i]),
    ensures
        producers.filter(keep) == producers,
    decreases producers.len(),
{
    reveal(Seq::filter);
    if producers.len() > 0 {
        lemma_all_kept(producers.drop_last(), keep);
        assert(producers.drop_last().push(producers.last()) =~= producers);
    }
}

/// Those that are not removed stay in their order.
pub proof fn law_others_stay(before: Seq<ProducerView>, more: Seq<ProducerView>, id: Seq<char>)
    ensures
        without(before + more, id) == without(before, id) + without(more, id),
        forall|p: ProducerView|
            #![trigger without(seq![p], id)]
            p.id != id ==> without(seq![p], id) == seq![p],
        forall|p: ProducerView|
            #![trigger without(seq![p], id)]
            p.id == id ==> without(seq![p], id).len() == 0,
{
    let keep = |p: ProducerView| p.id != id;
    lemma_filter_two(before, more, keep);
    assert forall|p: ProducerView| #![trigger without(seq![p], id)] true implies {
        &&& p.id != id ==> without(seq![p], id) == seq![p]
        &&& p.id == id ==> without(seq![p], id).len() == 0
    } by {
        reveal(Seq::filter);
        assert(seq![p].drop_last() =~= Seq::<ProducerView>::empty());
        assert(Seq::<ProducerView>::empty().filter(keep).len() == 0);
        if p.id != id {
            assert(seq![p].filter(keep) =~= seq![p]);
        }
    }
}

proof fn lemma_filter_two(
    before: Seq<ProducerView>,
    more: Seq<ProducerView>,
    keep: spec_fn(ProducerView) -> bool,
)
    ensures
        (before + more).filter(keep) == before.filter(keep) + more.filter(keep),
    decreases more.len(),
{
    reveal(Seq::filter);
    if more.len() == 0 {
        assert(before + more =~= before);
        assert(before.filter(keep) + more.filter(keep) =~= before.filter(keep));
    } else {
        lemma_filter_two(before, more.drop_last(), keep);
        assert((before + more).drop_last() =~= before + more.drop_last());
        assert((before + more).filter(keep) =~= before.filter(keep) + more.filter(keep));
    }
}

/// What is said of a `Producer` is said of its own fields.
pub proof fn law_producer_in_contracts(producer: Producer)
    ensures
        producer@.id == producer.id@,
        producer@.name == producer.name@,
        producer@.ty == producer.ty@,
        producer@.created_at == producer.created_at@,
{
}

} // verus!
