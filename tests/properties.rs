use std::collections::HashSet;
use std::sync::Arc;
use tiny_ram_db::errors::Error;
use tiny_ram_db::index::{Bucket, Index, Indexer};
use tiny_ram_db::record::Record;
use tiny_ram_db::store::Store;
use tiny_ram_db::table::{PlainTable, Table};

struct Author {
    name: String,
}

struct Post {
    text: String,
    author: Record<Author>,
}

#[derive(Default)]
struct ByAuthor {
    by_author: Index<Record<Author>, Post>,
}

impl Indexer for ByAuthor {
    type Item = Post;
    fn index(&mut self, item: &Record<Post>) -> Result<bool, Error> {
        self.by_author.insert(item.data.author.clone(), item.clone())
    }
}

#[derive(Default)]
struct NoIndexes {}

impl Indexer for NoIndexes {
    type Item = u32;
}

fn author(name: &str) -> Author {
    Author {
        name: name.to_string(),
    }
}

fn post(author: &Record<Author>, text: &str) -> Post {
    Post {
        text: text.to_string(),
        author: author.clone(),
    }
}

#[test]
fn ids_are_issued_in_order_from_one() {
    let mut t: PlainTable<u32> = PlainTable::new();
    let mut ids = vec![];
    for v in 0..5u32 {
        ids.push(t.insert(v * 10).unwrap().id);
    }
    assert_eq!(ids, vec![1, 2, 3, 4, 5]);
}

#[test]
fn indexed_table_issues_ids_in_order() {
    let mut t: Table<u32, NoIndexes> = Table::new();
    let a = t.insert(7).unwrap();
    let b = t.insert(8).unwrap();
    let c = t.insert(9).unwrap();
    assert_eq!((a.id, b.id, c.id), (1, 2, 3));
    assert_eq!(*t.find(2).unwrap().data, 8);
}

#[test]
fn found_record_holds_the_inserted_value() {
    let mut t: PlainTable<String> = PlainTable::new();
    let r1 = t.insert("first".to_string()).unwrap();
    let r2 = t.insert("second".to_string()).unwrap();
    let r3 = t.insert("third".to_string()).unwrap();
    assert_eq!(*t.find(r1.id).unwrap().data, "first");
    assert_eq!(*t.find(r2.id).unwrap().data, "second");
    assert_eq!(*t.find(r3.id).unwrap().data, "third");
    assert_eq!(t.find(r2.id).unwrap().id, r2.id);
}

#[test]
fn found_record_shares_the_payload() {
    let mut t: PlainTable<String> = PlainTable::new();
    let r = t.insert("shared".to_string()).unwrap();
    let found = t.find(r.id).unwrap();
    assert!(Arc::ptr_eq(&r.data, &found.data));
}

#[test]
fn never_issued_ids_are_not_found() {
    let mut t: PlainTable<u8> = PlainTable::new();
    assert_eq!(t.find(1).unwrap_err(), Error::RecordNotFound(1));
    t.insert(1).unwrap();
    t.insert(2).unwrap();
    assert_eq!(t.find(0).unwrap_err(), Error::RecordNotFound(0));
    assert_eq!(t.find(3).unwrap_err(), Error::RecordNotFound(3));
    assert_eq!(t.find(usize::MAX).unwrap_err(), Error::RecordNotFound(usize::MAX));
    let mut it: Table<u32, NoIndexes> = Table::new();
    it.insert(5).unwrap();
    assert_eq!(it.find(2).unwrap_err(), Error::RecordNotFound(2));
}

#[test]
fn store_issues_and_finds() {
    let mut s: Store<&str> = Store::new();
    let a = s.insert("a").unwrap();
    let b = s.insert("b").unwrap();
    assert_eq!((a.id, b.id), (1, 2));
    assert_eq!(*s.find(2).unwrap().data, "b");
    assert_eq!(s.find(3).unwrap_err(), Error::RecordNotFound(3));
}

#[test]
fn clones_of_a_table_share_records_and_ids() {
    let mut t: PlainTable<u32> = PlainTable::new();
    let mut u = t.clone();
    assert_eq!(t.insert(1).unwrap().id, 1);
    assert_eq!(u.insert(2).unwrap().id, 2);
    assert_eq!(*t.find(2).unwrap().data, 2);
    assert_eq!(*u.find(1).unwrap().data, 1);
}

#[test]
fn index_holds_every_filed_record_once() {
    let mut authors: PlainTable<Author> = PlainTable::new();
    let bob = authors.insert(author("bob")).unwrap();
    let mut posts: Table<Post, ByAuthor> = Table::new();
    let p1 = posts.insert(post(&bob, "one")).unwrap();
    let p2 = posts.insert(post(&bob, "two")).unwrap();
    let ids = posts
        .with_indexes(|ix| {
            ix.by_author.get(&bob, |b| {
                let mut ids: Vec<usize> = b.records().iter().map(|r| r.id).collect();
                ids.sort();
                ids
            })
        })
        .unwrap()
        .unwrap();
    assert_eq!(ids, vec![p1.id, p2.id]);
}

#[test]
fn index_insert_is_idempotent() {
    let mut t: PlainTable<u32> = PlainTable::new();
    let r = t.insert(3).unwrap();
    let mut ix: Index<u32, u32> = Index::new();
    assert_eq!(ix.insert(1, r.clone()), Ok(true));
    assert_eq!(ix.insert(1, r.clone()), Ok(false));
    assert_eq!(ix.get(&1, |b| b.len()), Ok(1));
    assert_eq!(ix.insert(2, r.clone()), Ok(true));
    assert_eq!(ix.get(&2, |b| b.len()), Ok(1));
    assert_eq!(ix.get(&1, |b| b.contains(&r)), Ok(true));
}

#[test]
fn unseen_key_reads_as_empty() {
    let ix: Index<String, u32> = Index::default();
    assert_eq!(ix.get(&"nobody".to_string(), |b| b.len()), Ok(0));
    assert_eq!(ix.get(&"nobody".to_string(), |b| b.is_empty()), Ok(true));
    assert_eq!(ix.get(&"nobody".to_string(), |b| b.records().len()), Ok(0));
}

#[test]
fn bucket_has_set_semantics_by_id() {
    let mut t: PlainTable<u32> = PlainTable::new();
    let a = t.insert(1).unwrap();
    let b = t.insert(2).unwrap();
    let mut bucket: Bucket<u32> = Bucket::new();
    assert!(bucket.is_empty());
    assert!(bucket.insert(a.clone()));
    assert!(bucket.insert(b.clone()));
    assert!(!bucket.insert(a.clone()));
    assert_eq!(bucket.len(), 2);
    assert!(bucket.contains(&a));
    let mut ids: Vec<usize> = bucket.records().iter().map(|r| r.id).collect();
    ids.sort();
    assert_eq!(ids, vec![1, 2]);
}

#[test]
fn records_compare_and_hash_by_id() {
    let a = Record {
        id: 4,
        data: Arc::new("x".to_string()),
    };
    let b = Record {
        id: 4,
        data: Arc::new("y".to_string()),
    };
    let c = Record {
        id: 5,
        data: Arc::new("x".to_string()),
    };
    assert!(a == b);
    assert!(a != c);
    let mut set = HashSet::new();
    assert!(set.insert(a.clone()));
    assert!(!set.insert(b));
    assert!(set.insert(c));
    assert_eq!(set.len(), 2);
    let copy = a.clone();
    assert_eq!(copy.id, 4);
    assert!(Arc::ptr_eq(&copy.data, &a.data));
}

#[test]
fn interleaved_handles_issue_every_id_once() {
    let n: usize = 4;
    let m: usize = 2_000;
    let t: PlainTable<usize> = PlainTable::new();
    let mut handles: Vec<PlainTable<usize>> = (0..n).map(|_| t.clone()).collect();
    let mut per_handle: Vec<Vec<usize>> = vec![vec![]; n];
    for x in 0..m {
        for k in 0..n {
            let id = handles[k].insert(k * m + x).unwrap().id;
            per_handle[k].push(id);
        }
    }
    let mut all = vec![];
    for ids in per_handle {
        assert!(ids.windows(2).all(|w| w[0] < w[1]));
        all.extend(ids);
    }
    all.sort();
    let expected: Vec<usize> = (1..=n * m).collect();
    assert_eq!(all, expected);
}

#[test]
fn posts_by_author_scenario() {
    let mut authors: PlainTable<Author> = PlainTable::new();
    let bob = authors.insert(author("bob")).unwrap();
    let ana = authors.insert(author("ana")).unwrap();
    assert_eq!((bob.id, ana.id), (1, 2));
    let cy = authors.insert(author("cy")).unwrap();
    let mut posts: Table<Post, ByAuthor> = Table::new();
    let b1 = posts.insert(post(&bob, "b1")).unwrap();
    posts.insert(post(&ana, "a1")).unwrap();
    let b2 = posts.insert(post(&bob, "b2")).unwrap();
    posts.insert(post(&ana, "a2")).unwrap();
    let bobs = posts
        .with_indexes(|ix| {
            ix.by_author.get(&bob, |b| {
                let mut v: Vec<(usize, String)> = b
                    .records()
                    .iter()
                    .map(|r| (r.id, r.data.text.clone()))
                    .collect();
                v.sort();
                v
            })
        })
        .unwrap()
        .unwrap();
    assert_eq!(bobs, vec![(b1.id, "b1".to_string()), (b2.id, "b2".to_string())]);
    let bob_again = authors.find(1).unwrap();
    assert_eq!(bob_again.data.name, "bob");
    let unused = posts
        .with_indexes(|ix| ix.by_author.get(&cy, |b| b.len()))
        .unwrap();
    assert_eq!(unused, Ok(0));
}
