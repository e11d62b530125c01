//! The stack of VOXL parameter files: which files it holds, and the defaults in them.

use vstd::prelude::*;

use crate::baseline::{layers_view, BaselineLayer, LayerView};
use crate::table::{sort_texts, sorted_texts, TextMap, TextSet};
use crate::text::{
    from_chars, has_prefix, head_before, is_str, lines, lines_of, opt_str, rsplit_once, split_last,
    take_before, texts, to_chars, trim, trimmed, views, words, words_of, CharClass,
};

verus! {

/// Defaults after a line of a parameter file: vehicle, component, name, value and type.
pub open spec fn with_param_line(
    defaults: Map<Seq<char>, Seq<char>>,
    line: Seq<char>,
    wanted: Set<Seq<char>>,
) -> Map<Seq<char>, Seq<char>> {
    let parts = words_of(trimmed(head_before(line, CharClass::Exactly('#'))));
    if parts.len() >= 5 && wanted.contains(parts[2]) {
        defaults.insert(parts[2], parts[3])
    } else {
        defaults
    }
}

/// The defaults of the wanted parameters in the lines of a parameter file.
pub open spec fn param_file_defaults(all: Seq<Seq<char>>, wanted: Set<Seq<char>>) -> Map<
    Seq<char>,
    Seq<char>,
>
    decreases all.len(),
{
    if all.len() == 0 {
        Map::empty()
    } else {
        with_param_line(param_file_defaults(all.drop_last(), wanted), all.last(), wanted)
    }
}

/// Reads the defaults of the wanted parameters in a parameter file; what stands behind a `#` is a
/// comment.
pub fn parse_voxl_params_text(text: &str, wanted: &TextSet) -> (r: TextMap<String>)
    ensures
        r@ == param_file_defaults(lines_of(text@), wanted@),
{
    let chars = to_chars(text);
    let source = lines(chars.as_slice());
    let ghost all = lines_of(text@);
    let mut defaults: TextMap<String> = TextMap::new();
    for i in 0..source.len()
        invariant
            views(source@) == all,
            defaults@ == param_file_defaults(all.take(i as int), wanted@),
    {
        proof {
            assert(all.take(i + 1).drop_last() =~= all.take(i as int));
            assert(all.take(i + 1).last() == views(source@)[i as int]);
            assert(all.take(i + 1).last() == source@[i as int]@);
        }
        let line = trim(take_before(source[i], CharClass::Exactly('#')));
        let parts = words(line);
        if parts.len() >= 5 {
            assert(views(parts@)[2] == parts@[2]@ && views(parts@)[3] == parts@[3]@);
            let name = from_chars(parts[2]);
            if wanted.contains(name.as_str()) {
                defaults.insert(name, from_chars(parts[3]));
            }
        }
    }
    assert(all.take(all.len() as int) =~= all);
    defaults
}

/// A parameter file of the stack.
pub struct StackText {
    /// How messages call it.
    pub label: String,
    /// What it holds.
    pub text: String,
}

/// The layer of a parameter file.
pub open spec fn file_layer(
    label: Seq<char>,
    text: Seq<char>,
    code: Seq<char>,
    wanted: Set<Seq<char>>,
) -> LayerView {
    LayerView {
        defaults: param_file_defaults(lines_of(text), wanted),
        source: "VOXL "@ + code + " default ("@ + label + ")"@,
        fallback: false,
    }
}

/// The layers of parameter files: one for each that has a wanted parameter, in their order.
pub open spec fn file_layers(
    files: Seq<StackText>,
    code: Seq<char>,
    wanted: Set<Seq<char>>,
) -> Seq<LayerView>
    decreases files.len(),
{
    if files.len() == 0 {
        Seq::empty()
    } else {
        let before = file_layers(files.drop_last(), code, wanted);
        let layer = file_layer(files.last().label@, files.last().text@, code, wanted);
        if layer.defaults.dom() =~= Set::<Seq<char>>::empty() {
            before
        } else {
            before.push(layer)
        }
    }
}

/// Why a stack gives no layers: no file of it has a wanted parameter.
#[derive(Clone, Copy, Debug, PartialEq, Eq, Structural)]
pub struct NoMatchingDefaults;

/// The layers of a stack of parameter files.
pub fn load_voxl_param_layers(platform_code: &str, files: &[StackText], wanted: &TextSet) -> (r:
    Result<Vec<BaselineLayer>, NoMatchingDefaults>)
    ensures
        r is Err <==> file_layers(files@, platform_code@, wanted@).len() == 0,
        r matches Ok(layers) ==> layers_view(layers@) == file_layers(
            files@,
            platform_code@,
            wanted@,
        ),
{
    let mut out: Vec<BaselineLayer> = Vec::new();
    assert(layers_view(out@) =~= Seq::empty());
    for i in 0..files.len()
        invariant
            layers_view(out@) == file_layers(files@.take(i as int), platform_code@, wanted@),
    {
        proof {
            assert(files@.take(i + 1).drop_last() =~= files@.take(i as int));
            assert(files@.take(i + 1).last() == files@[i as int]);
        }
        let file = &files[i];
        let defaults = parse_voxl_params_text(file.text.as_str(), wanted);
        if !defaults.is_empty() {
            let mut source = String::from_str("VOXL ");
            source.append(platform_code);
            source.append(" default (");
            source.append(file.label.as_str());
            source.append(")");
            let ghost before = out@;
            let layer = BaselineLayer { defaults, source, fallback: false };
            let ghost view = layer@;
            out.push(layer);
            assert(layers_view(out@) =~= layers_view(before).push(view));
        }
    }
    assert(files@.take(files@.len() as int) =~= files@);
    if out.len() == 0 {
        Err(NoMatchingDefaults)
    } else {
        Ok(out)
    }
}

/// How messages call a parameter file: by its path below the tree, else by its name.
pub open spec fn stack_label(relative: Option<Seq<char>>, name: Option<Seq<char>>) -> Seq<char> {
    match relative {
        Some(r) => r,
        None => match name {
            Some(n) => n,
            None => "unknown"@,
        },
    }
}

/// How messages call a parameter file: `relative` is its path below the tree, if it lies there,
/// and `file_name` its name, if it has one.
pub fn voxl_param_stack_label(relative: Option<&str>, file_name: Option<&str>) -> (r: String)
    ensures
        r@ == stack_label(opt_str(relative), opt_str(file_name)),
{
    match relative {
        Some(r) => String::from_str(r),
        None => match file_name {
            Some(n) => String::from_str(n),
            None => String::from_str("unknown"),
        },
    }
}

/// The names among the given ones of parameter files for a platform.
pub open spec fn platform_names(names: Seq<Seq<char>>, code: Seq<char>) -> Seq<Seq<char>>
    decreases names.len(),
{
    if names.len() == 0 {
        Seq::empty()
    } else {
        let before = platform_names(names.drop_last(), code);
        if is_params_name(names.last()) && code.is_prefix_of(names.last()) {
            before.push(names.last())
        } else {
            before
        }
    }
}

/// Whether a file name has the extension `params`.
pub open spec fn is_params_name(name: Seq<char>) -> bool {
    match split_last(name, '.') {
        Some((stem, extension)) => stem.len() > 0 && extension == "params"@,
        None => false,
    }
}

fn params_name(name: &str) -> (r: bool)
    ensures
        r == is_params_name(name@),
{
    let c = to_chars(name);
    match rsplit_once(c.as_slice(), '.') {
        Some((stem, extension)) => stem.len() > 0 && is_str(extension, "params"),
        None => false,
    }
}

fn starts_with(s: &str, prefix: &str) -> (r: bool)
    ensures
        r == prefix@.is_prefix_of(s@),
{
    let c = to_chars(s);
    has_prefix(c.as_slice(), prefix)
}

/// Why no stack of parameter files can be had.
#[derive(Debug)]
pub enum StackError {
    /// A file that discovery reports is not there.
    Missing {
        /// Its index.
        index: usize,
    },
    /// The tree is not there.
    NoTree,
    /// No file is for the platform.
    NoPlatformFile,
    /// Several files are for the platform: these, in their order.
    Ambiguous {
        /// Their names.
        names: Vec<String>,
    },
}

/// The view of a stack error.
pub enum StackErrorView {
    /// A file that discovery reports is not there.
    Missing {
        /// Its index.
        index: usize,
    },
    /// The tree is not there.
    NoTree,
    /// No file is for the platform.
    NoPlatformFile,
    /// Several files are for the platform: these, in their order.
    Ambiguous {
        /// Their names.
        names: Seq<Seq<char>>,
    },
}

impl View for StackError {
    type V = StackErrorView;

    open spec fn view(&self) -> StackErrorView {
        match self {
            StackError::Missing { index } => StackErrorView::Missing { index: *index },
            StackError::NoTree => StackErrorView::NoTree,
            StackError::NoPlatformFile => StackErrorView::NoPlatformFile,
            StackError::Ambiguous { names } => StackErrorView::Ambiguous { names: texts(names@) },
        }
    }
}

/// The parameter file for a platform, among the files of the tree if it is there.
pub open spec fn platform_file_of(names: Option<Seq<Seq<char>>>, code: Seq<char>) -> Result<
    Seq<char>,
    StackErrorView,
> {
    match names {
        None => Err(StackErrorView::NoTree),
        Some(all) => {
            let found = sorted_texts(platform_names(all, code));
            if found.len() == 0 {
                Err(StackErrorView::NoPlatformFile)
            } else if found.len() == 1 {
                Ok(found[0])
            } else {
                Err(StackErrorView::Ambiguous { names: found })
            }
        },
    }
}

/// The view of the result of a search for a file.
pub open spec fn file_view(r: Result<String, StackError>) -> Result<Seq<char>, StackErrorView> {
    match r {
        Ok(s) => Ok(s@),
        Err(e) => Err(e@),
    }
}

/// The view of an optional list of names.
pub open spec fn opt_names(v: Option<&Vec<String>>) -> Option<Seq<Seq<char>>> {
    match v {
        Some(x) => Some(texts(x@)),
        None => None,
    }
}

/// Finds the parameter file for a platform; `names` are the files of the tree, if it is there.
pub fn find_voxl_platform_file(names: Option<&Vec<String>>, platform_code: &str) -> (r: Result<
    String,
    StackError,
>)
    ensures
        file_view(r) == platform_file_of(opt_names(names), platform_code@),
{
    let list = match names {
        None => {
            return Err(StackError::NoTree);
        },
        Some(list) => list,
    };
    let ghost all = texts(list@);
    let mut found: Vec<String> = Vec::new();
    assert(texts(found@) =~= Seq::empty());
    for i in 0..list.len()
        invariant
            all == texts(list@),
            texts(found@) == platform_names(all.take(i as int), platform_code@),
    {
        proof {
            assert(all.take(i + 1).drop_last() =~= all.take(i as int));
            assert(all.take(i + 1).last() == list@[i as int]@);
        }
        if params_name(list[i].as_str()) && starts_with(list[i].as_str(), platform_code) {
            let ghost before = found@;
            found.push(list[i].clone());
            assert(texts(found@) =~= texts(before).push(list@[i as int]@));
        }
    }
    assert(all.take(all.len() as int) =~= all);
    let sorted = sort_texts(found.as_slice());
    assert(texts(sorted@).len() == sorted@.len());
    if sorted.len() == 0 {
        Err(StackError::NoPlatformFile)
    } else if sorted.len() == 1 {
        assert(texts(sorted@)[0] == sorted@[0]@);
        Ok(sorted[0].clone())
    } else {
        Err(StackError::Ambiguous { names: sorted })
    }
}

/// A parameter file that discovery reports.
pub struct ReportedFile {
    /// Its path below the tree.
    pub relative: String,
    /// Whether it is there.
    pub present: bool,
}

/// The first reported file that is not there.
pub open spec fn first_missing(files: Seq<ReportedFile>) -> Option<int>
    decreases files.len(),
{
    if files.len() == 0 {
        None
    } else {
        match first_missing(files.drop_last()) {
            Some(i) => Some(i),
            None => if files.last().present {
                None
            } else {
                Some(files.len() - 1)
            },
        }
    }
}

/// The stack of parameter files: the reported ones, or the one file for the platform.
pub open spec fn stack_of(
    reported: Seq<ReportedFile>,
    names: Option<Seq<Seq<char>>>,
    code: Seq<char>,
) -> Result<Seq<Seq<char>>, StackErrorView> {
    if reported.len() > 0 {
        match first_missing(reported) {
            Some(i) => Err(StackErrorView::Missing { index: i as usize }),
            None => Ok(Seq::new(reported.len(), |i: int| reported[i].relative@)),
        }
    } else {
        match platform_file_of(names, code) {
            Ok(name) => Ok(seq!["platforms/"@ + name]),
            Err(e) => Err(e),
        }
    }
}

/// The view of a resolved stack.
pub open spec fn stack_view(r: Result<Vec<String>, StackError>) -> Result<
    Seq<Seq<char>>,
    StackErrorView,
> {
    match r {
        Ok(v) => Ok(texts(v@)),
        Err(e) => Err(e@),
    }
}

/// Resolves the stack of parameter files, as paths below the tree: the files that discovery
/// reports, which must all be there, or else the one file for the platform.
pub fn resolve_voxl_param_stack(
    reported: &[ReportedFile],
    platform_files: Option<&Vec<String>>,
    platform_code: &str,
) -> (r: Result<Vec<String>, StackError>)
    ensures
        stack_view(r) == stack_of(reported@, opt_names(platform_files), platform_code@),
{
    if reported.len() > 0 {
        let mut out: Vec<String> = Vec::new();
        for i in 0..reported.len()
            invariant
                out@.len() == i,
                first_missing(reported@.take(i as int)) is None,
                forall|k: int| 0 <= k < i ==> (#[trigger] out@[k])@ == reported@[k].relative@,
        {
            proof {
                assert(reported@.take(i + 1).drop_last() =~= reported@.take(i as int));
                assert(reported@.take(i + 1).last() == reported@[i as int]);
            }
            if !reported[i].present {
                proof {
                    lemma_missing_stays(reported@, i + 1);
                }
                return Err(StackError::Missing { index: i });
            }
            let ghost before = out@;
            out.push(reported[i].relative.clone());
            assert forall|k: int| 0 <= k < i + 1 implies (#[trigger] out@[k])@
                == reported@[k].relative@ by {
                if k < i {
                    assert(out@[k] == before[k]);
                }
            }
        }
        assert(reported@.take(reported@.len() as int) =~= reported@);
        assert(texts(out@) =~= Seq::new(reported@.len(), |i: int| reported@[i].relative@));
        return Ok(out);
    }
    match find_voxl_platform_file(platform_files, platform_code) {
        Ok(name) => {
            let mut path = String::from_str("platforms/");
            path.append(name.as_str());
            let ghost view = path@;
            let mut out: Vec<String> = Vec::new();
            out.push(path);
            assert(texts(out@) =~= seq![view]);
            Ok(out)
        },
        Err(e) => Err(e),
    }
}

proof fn lemma_missing_stays(files: Seq<ReportedFile>, n: int)
    requires
        0 <= n <= files.len(),
        first_missing(files.take(n)) is Some,
    ensures
        first_missing(files) == first_missing(files.take(n)),
    decreases files.len() - n,
{
    if n < files.len() {
        assert(files.take(n + 1).drop_last() =~= files.take(n));
        lemma_missing_stays(files, n + 1);
    } else {
        assert(files.take(n) =~= files);
    }
}

/// A parameter file gives nothing but wanted parameters.
pub proof fn law_files_give_wanted(all: Seq<Seq<char>>, wanted: Set<Seq<char>>, name: Seq<char>)
    requires
        param_file_defaults(all, wanted).dom().contains(name),
    ensures
        wanted.contains(name),
    decreases all.len(),
{
    if all.len() > 0 {
        if param_file_defaults(all.drop_last(), wanted).dom().contains(name) {
            law_files_give_wanted(all.drop_last(), wanted, name);
        }
    }
}

/// Layers of parameter files are no fallbacks, and none of them is empty.
pub proof fn law_file_layers(
    files: Seq<StackText>,
    code: Seq<char>,
    wanted: Set<Seq<char>>,
    i: int,
)
    requires
        0 <= i < file_layers(files, code, wanted).len(),
    ensures
        !file_layers(files, code, wanted)[i].fallback,
        !(file_layers(files, code, wanted)[i].defaults.dom() =~= Set::<Seq<char>>::empty()),
    decreases files.len(),
{
    if files.len() > 0 {
        if i < file_layers(files.drop_last(), code, wanted).len() {
            law_file_layers(files.drop_last(), code, wanted, i);
        }
    }
}

} // verus!
