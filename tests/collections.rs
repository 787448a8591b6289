use pipeviewer::balancedtree::BinTree as BalTree;
use pipeviewer::binarytree::BinTree;
use pipeviewer::linkedlists::LinkedList;
use pipeviewer::rand_gen::RandGen;

fn list_items(l: &LinkedList<i32>) -> Vec<i32> {
    let mut out = Vec::new();
    let mut cur = l;
    while let Some((v, next)) = &cur.0 {
        out.push(*v);
        cur = next;
    }
    out
}

fn in_order(t: &BalTree<i32>, out: &mut Vec<i32>) {
    if let Some(b) = &t.0 {
        in_order(&b.left, out);
        out.push(b.data);
        in_order(&b.right, out);
    }
}

fn heights_ok(t: &BalTree<i32>) -> bool {
    match &t.0 {
        Some(b) => {
            heights_ok(&b.left)
                && heights_ok(&b.right)
                && b.h == 1 + std::cmp::max(b.left.height(), b.right.height())
        }
        None => true,
    }
}

#[test]
fn test_rands_print() {
    let mut r = RandGen::new(12);
    for _ in 0..100 {
        println!("--{}", r.next_v(1000));
    }
}

#[test]
fn rand_gen_follows_its_recurrence() {
    let mut r = RandGen::new(12);
    let mut cur: u64 = 12;
    for _ in 0..100 {
        cur = (cur * 56394237 + 34642349) % 25964951;
        assert_eq!(r.next_v(1000) as u64, cur % 1000);
    }
}

#[test]
fn linked_list_pushes_and_sorted_insert() {
    let mut ll = LinkedList::new();
    ll.push_front(3);
    ll.push_front(1);
    ll.push_back(5);
    ll.insert_sorted(4);
    assert_eq!(list_items(&ll), vec![1, 3, 4, 5]);
    ll.insert_sorted(0);
    ll.insert_sorted(9);
    assert_eq!(list_items(&ll), vec![0, 1, 3, 4, 5, 9]);
}

#[test]
fn binary_tree_places_smaller_values_left() {
    let mut t = BinTree::new();
    for v in [4, 5, 1, 3, 7, 6] {
        t.add_sorted(v);
    }
    let shape = format!("{:?}", t);
    assert!(shape.starts_with("BinTree(Some(BinData { data: 4, left: BinTree(Some(BinData { data: 1,"));
}

#[test]
fn balanced_tree_keeps_values_in_order_and_heights_right() {
    let mut bt = BalTree::new();
    for v in [4, 6, 1, 3, 8, 7, 5] {
        bt.add_sorted(v);
    }
    for i in 0..1000 {
        bt.add_sorted(i);
    }
    let mut items = Vec::new();
    in_order(&bt, &mut items);
    assert_eq!(items.len(), 1007);
    let mut sorted = items.clone();
    sorted.sort();
    assert_eq!(items, sorted);
    assert!(heights_ok(&bt));
    assert!(bt.height() < 100);
}

#[test]
fn balanced_tree_rotation_keeps_order() {
    let mut bt = BalTree::new();
    bt.add_sorted(1);
    bt.add_sorted(2);
    bt.add_sorted(3);
    // Three ascending values turn into a tree rooted at the middle one.
    assert_eq!(bt.0.as_ref().map(|b| b.data), Some(2));
    assert_eq!(bt.height(), 2);
    bt.rot_right();
    assert_eq!(bt.0.as_ref().map(|b| b.data), Some(1));
    let mut items = Vec::new();
    in_order(&bt, &mut items);
    assert_eq!(items, vec![1, 2, 3]);
}

fn plain_in_order(t: &BinTree<i32>, out: &mut Vec<i32>) {
    if let Some(b) = &t.0 {
        plain_in_order(&b.left, out);
        out.push(b.data);
        plain_in_order(&b.right, out);
    }
}

#[test]
fn binary_tree_in_order_is_sorted_and_leaves_are_new() {
    let mut t = BinTree::new();
    for v in [4, 5, 1, 3, 7, 6, 3] {
        t.add_sorted(v);
    }
    let mut items = Vec::new();
    plain_in_order(&t, &mut items);
    assert_eq!(items, vec![1, 3, 3, 4, 5, 6, 7]);
    // The root never moves.
    assert_eq!(t.0.as_ref().map(|b| b.data), Some(4));
}
