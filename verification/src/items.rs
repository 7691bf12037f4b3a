use vstd::prelude::*;

verus! {

/// A top-level item of a parsed source file, reduced to what the function
/// lister reads: either a function declaration carrying its name, or an
/// item of any other kind.
pub enum ParsedItem {
    Function { name: String },
    Other,
}

/// The mathematical model of a `ParsedItem`: the name as a sequence of
/// characters.
pub enum ItemModel {
    Function { name: Seq<char> },
    Other,
}

impl View for ParsedItem {
    type V = ItemModel;

    open spec fn view(&self) -> ItemModel {
        match self {
            ParsedItem::Function { name } => ItemModel::Function { name: name@ },
            ParsedItem::Other => ItemModel::Other,
        }
    }
}

/// The names of the function items among `items`, in order; an item of any
/// other kind contributes nothing.
pub open spec fn function_names(items: Seq<ItemModel>) -> Seq<Seq<char>>
    decreases items.len(),
{
    if items.len() == 0 {
        Seq::<Seq<char>>::empty()
    } else {
        function_names(items.drop_last()) + (match items.last() {
            ItemModel::Function { name } => seq![name],
            ItemModel::Other => Seq::<Seq<char>>::empty(),
        })
    }
}

/// The name a function item carries.
pub open spec fn item_name(it: ItemModel) -> Seq<char>
    recommends
        it is Function,
{
    match it {
        ItemModel::Function { name } => name,
        ItemModel::Other => Seq::<char>::empty(),
    }
}

/// The subsequence of the function items among `items`, in their order.
pub open spec fn function_items(items: Seq<ItemModel>) -> Seq<ItemModel>
    decreases items.len(),
{
    if items.len() == 0 {
        Seq::<ItemModel>::empty()
    } else {
        function_items(items.drop_last()) + (if items.last() is Function {
            seq![items.last()]
        } else {
            Seq::<ItemModel>::empty()
        })
    }
}

/// The lister is exact over the top-level items: it yields one name for
/// each function item, in the items' order — the k-th listed name is the
/// name of the k-th function item.
pub proof fn lemma_function_names_exact(items: Seq<ItemModel>)
    ensures
        function_names(items).len() == function_items(items).len(),
        forall|k: int|
            0 <= k < function_names(items).len() ==> #[trigger] function_names(items)[k]
                == item_name(function_items(items)[k]),
    decreases items.len(),
{
    if items.len() > 0 {
        lemma_function_names_exact(items.drop_last());
    }
}

/// A sequence without function items yields no names at all.
pub proof fn lemma_no_functions_no_names(items: Seq<ItemModel>)
    requires
        forall|i: int| 0 <= i < items.len() ==> !(#[trigger] items[i] is Function),
    ensures
        function_names(items) == Seq::<Seq<char>>::empty(),
    decreases items.len(),
{
    if items.len() > 0 {
        assert(!(items[items.len() - 1] is Function));
        assert forall|i: int| 0 <= i < items.drop_last().len() implies !(
        #[trigger] items.drop_last()[i] is Function) by {
            assert(items.drop_last()[i] == items[i]);
        }
        lemma_no_functions_no_names(items.drop_last());
        assert(function_names(items) =~= Seq::<Seq<char>>::empty());
    }
}

/// No listed name is invented and none is drawn from inside another
/// item's body: each one is the name of some item of the sequence — and
/// the sequence holds the file's top-level items only.
pub proof fn lemma_names_only_from_items(items: Seq<ItemModel>)
    ensures
        forall|k: int|
            0 <= k < function_names(items).len() ==> items.contains(
                ItemModel::Function { name: #[trigger] function_names(items)[k] },
            ),
    decreases items.len(),
{
    if items.len() > 0 {
        lemma_names_only_from_items(items.drop_last());
        let prev = function_names(items.drop_last());
        assert forall|k: int| 0 <= k < function_names(items).len() implies items.contains(
            ItemModel::Function { name: #[trigger] function_names(items)[k] },
        ) by {
            if k < prev.len() {
                assert(function_names(items)[k] == prev[k]);
                let j = choose|j: int|
                    0 <= j < items.drop_last().len() && items.drop_last()[j] == (
                    ItemModel::Function { name: prev[k] });
                assert(items[j] == ItemModel::Function { name: prev[k] });
            } else {
                assert(items.last() is Function);
                assert(function_names(items)[k] == item_name(items.last()));
                assert(items[items.len() - 1] == ItemModel::Function {
                    name: function_names(items)[k],
                });
            }
        }
    }
}

/// Collect the names of the function items, in declaration order.
pub fn collect_function_names(items: &Vec<ParsedItem>) -> (names: Vec<String>)
    ensures
        names@.map_values(|s: String| s@) == function_names(items@.map_values(|it: ParsedItem| it@)),
{
    let ghost model: Seq<ItemModel> = items@.map_values(|it: ParsedItem| it@);
    let mut names: Vec<String> = Vec::new();
    for i in 0..items.len()
        invariant
            model == items@.map_values(|it: ParsedItem| it@),
            names@.map_values(|s: String| s@) == function_names(model.take(i as int)),
    {
        let ghost before: Seq<String> = names@;
        match &items[i] {
            ParsedItem::Function { name } => {
                names.push(name.clone());
                proof {
                    assert(names@.map_values(|s: String| s@) =~= before.map_values(|s: String| s@)
                        + seq![name@]);
                }
            },
            ParsedItem::Other => {},
        }
        proof {
            assert(model.take(i + 1).drop_last() =~= model.take(i as int));
            assert(model.take(i + 1).last() == model[i as int]);
        }
    }
    proof {
        assert(model.take(items@.len() as int) =~= model);
    }
    names
}

} // verus!
