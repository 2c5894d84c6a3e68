//! The default template helpers' lookup logic: the scalar field lookup that
//! renders a descriptive inline message when a field is unbound, and the
//! array field lookup that falls back to an empty collection.

use vstd::prelude::*;

use crate::composer::lemma_assoc_key_witness;
use crate::composer::lemma_assoc_lookup;
use crate::composer::mod_views;
use crate::composer::PageModuleDisplayDTO;
use crate::composer::PageModuleDisplayDTOView;
use crate::module_models::Module;
use crate::module_models::ModuleView;

verus! {

/// The inline message rendered in place of a scalar field that the page
/// does not carry, naming the missing field for the template's designer.
pub open spec fn missing_field_message(t: Seq<char>) -> Seq<char> {
    "Field `"@ + t + "` does not exist on the page."@
}

/// What the scalar lookup renders: the field's content, or the inline
/// message naming the missing field. A miss never aborts a render.
pub open spec fn spec_get(v: PageModuleDisplayDTOView, t: Seq<char>) -> Seq<char> {
    if v.fields.contains_key(t) {
        v.fields[t].content
    } else {
        missing_field_message(t)
    }
}

/// What the array lookup returns: the members under the title, or an empty
/// collection when the page has no such array field — never an error, to
/// keep templates simple.
pub open spec fn spec_get_array(v: PageModuleDisplayDTOView, t: Seq<char>) -> Seq<ModuleView> {
    if v.array_fields.contains_key(t) {
        v.array_fields[t]
    } else {
        Seq::empty()
    }
}

/// The scalar field lookup behind the `get` template helper: the content of
/// the module bound under the title, or an inline message naming the
/// missing field, so a designer can see what is unbound without crashing
/// the page.
pub fn get(dto: &PageModuleDisplayDTO, module_title: &String) -> (r: String)
    requires
        dto.wf(),
    ensures
        r@ == spec_get(dto@, module_title@),
{
    let mut i: usize = 0;
    while i < dto.fields.len()
        invariant
            0 <= i <= dto.fields.len(),
            dto.wf(),
            forall|j: int| 0 <= j < i ==> (#[trigger] dto.field_entries()[j]).0 != module_title@,
        decreases dto.fields.len() - i,
    {
        if dto.fields[i].title == *module_title {
            proof {
                assert(dto.field_entries()[i as int].0 == module_title@);
                lemma_assoc_lookup(dto.field_entries(), i as int);
            }
            return dto.fields[i].content.clone();
        }
        proof {
            assert(dto.field_entries()[i as int].0 == dto.fields@[i as int]@.title);
        }
        i += 1;
    }
    proof {
        if dto@.fields.contains_key(module_title@) {
            lemma_assoc_key_witness(dto.field_entries(), module_title@);
        }
    }
    let mut message = String::from_str("Field `");
    message.append(module_title.as_str());
    message.append("` does not exist on the page.");
    proof {
        assert(message@ =~= missing_field_message(module_title@));
    }
    message
}

/// The array field lookup behind the `getarray` template helper. The
/// template language's iteration construct needs a collection value, so
/// this falls back to an empty collection rather than an error when the
/// page has no such array field.
#[derive(Clone, Copy)]
pub struct ArrayHelper;

impl ArrayHelper {
    /// The members bound under the title, in order, or an empty collection.
    pub fn call_inner(&self, dto: &PageModuleDisplayDTO, module_title: &String) -> (r: Vec<
        Module,
    >)
        requires
            dto.wf(),
        ensures
            mod_views(r@) == spec_get_array(dto@, module_title@),
    {
        let mut i: usize = 0;
        while i < dto.array_fields.len()
            invariant
                0 <= i <= dto.array_fields.len(),
                dto.wf(),
                forall|j: int|
                    0 <= j < i ==> (#[trigger] dto.array_entries()[j]).0 != module_title@,
            decreases dto.array_fields.len() - i,
        {
            if dto.array_fields[i].title == *module_title {
                proof {
                    assert(dto.array_entries()[i as int].0 == module_title@);
                    lemma_assoc_lookup(dto.array_entries(), i as int);
                }
                return crate::composer::clone_modules(&dto.array_fields[i].modules);
            }
            proof {
                assert(dto.array_entries()[i as int].0 == dto.array_fields@[i as int]@.title);
            }
            i += 1;
        }
        proof {
            if dto@.array_fields.contains_key(module_title@) {
                lemma_assoc_key_witness(dto.array_entries(), module_title@);
            }
        }
        let empty_array: Vec<Module> = Vec::new();
        proof {
            assert(mod_views(empty_array@) =~= Seq::<ModuleView>::empty());
        }
        empty_array
    }
}

} // verus!
