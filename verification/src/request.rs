use vstd::prelude::*;

use crate::devices::{first_non_blank, first_non_empty, prop, prop_value, str_views, string_map_view};
use crate::registry::contains_string;
use crate::strmap::StrMap;
use crate::text::{
    chars_of, contains, is_blank, join_sep, join_strings, str_contains, str_eq, text_views,
    to_uppercase, trim, uppercase,
};

verus! {

/// What a caller asks the runner to do.
pub struct RunSuiteRequest {
    pub run_id: Option<String>,
    pub auto_root: String,
    pub test_type: String,
    pub laundry_zip_path: Option<String>,
    pub selected_laundry_results: Vec<String>,
    pub user_devices: Vec<String>,
    pub userdebug_devices: Vec<String>,
    pub retry_count: u32,
    pub wifi_enabled: bool,
    pub wifi_ssid: String,
    pub wifi_password: String,
    pub timeout_secs: u64,
}

pub open spec fn string_views(v: Seq<String>) -> Seq<Seq<char>> {
    v.map_values(|s: String| s@)
}

/// The serials a request names: its user devices, then its userdebug devices.
pub open spec fn selected(request: RunSuiteRequest) -> Seq<Seq<char>> {
    string_views(request.user_devices@) + string_views(request.userdebug_devices@)
}

pub fn clone_strings(v: &Vec<String>) -> (r: Vec<String>)
    ensures
        r@ == v@,
{
    let mut r: Vec<String> = Vec::new();
    let mut i: usize = 0;
    while i < v.len()
        invariant
            i <= v.len(),
            r@ == v@.take(i as int),
        decreases v.len() - i,
    {
        r.push(v[i].clone());
        assert(r@ =~= v@.take(i + 1));
        i = i + 1;
    }
    assert(v@.take(v.len() as int) =~= v@);
    r
}

pub fn selected_serials(request: &RunSuiteRequest) -> (r: Vec<String>)
    ensures
        string_views(r@) == selected(*request),
        r@ == request.user_devices@ + request.userdebug_devices@,
{
    let mut r = clone_strings(&request.user_devices);
    let mut more = clone_strings(&request.userdebug_devices);
    r.append(&mut more);
    assert(string_views(r@) =~= selected(*request));
    r
}

} // verus!

verus! {

/// A laundry result id that names a security (STS) run.
pub open spec fn id_mentions_sts(id: Seq<char>) -> bool {
    contains(uppercase(id), "STS"@) || contains(uppercase(id), "SECURITY"@)
}

/// A laundry result id that names a compatibility (CTS) or Google (GTS) run.
pub open spec fn id_mentions_cts_gts(id: Seq<char>) -> bool {
    contains(uppercase(id), "CTS"@) || contains(uppercase(id), "COMPATIBILITY"@)
        || contains(uppercase(id), "GTS"@) || contains(uppercase(id), "GOOGLE"@)
}

/// Which device groups a Laundry SMR run needs for the results it retries,
/// and the complaint when a group is missing.
pub open spec fn laundry_pair_error(ids: Seq<Seq<char>>, no_user: bool, no_userdebug: bool) -> Option<Seq<char>> {
    let has_sts = exists|i: int| 0 <= i < ids.len() && #[trigger] id_mentions_sts(ids[i]);
    let has_cts_gts = exists|i: int| 0 <= i < ids.len() && #[trigger] id_mentions_cts_gts(ids[i]);
    if ids.len() > 0 && has_cts_gts && has_sts {
        if no_user || no_userdebug { Some("Laundry SMR needs selected USER and USERDEBUG devices"@) } else { None }
    } else if ids.len() > 0 && has_cts_gts {
        if no_user { Some("Laundry SMR needs selected USER device for CTS/GTS"@) } else { None }
    } else if ids.len() > 0 && has_sts {
        if no_userdebug { Some("Laundry SMR needs selected USERDEBUG device for STS"@) } else { None }
    } else if no_user && no_userdebug {
        Some("Laundry SMR needs at least one device"@)
    } else {
        None
    }
}

fn mentions_flags(ids: &Vec<String>) -> (r: (bool, bool))
    ensures
        r.0 == exists|i: int| 0 <= i < ids.len() && #[trigger] id_mentions_cts_gts(string_views(ids@)[i]),
        r.1 == exists|i: int| 0 <= i < ids.len() && #[trigger] id_mentions_sts(string_views(ids@)[i]),
{
    let mut has_cts_gts = false;
    let mut has_sts = false;
    let mut i: usize = 0;
    while i < ids.len()
        invariant
            i <= ids.len(),
            has_cts_gts == exists|j: int| 0 <= j < i && #[trigger] id_mentions_cts_gts(string_views(ids@)[j]),
            has_sts == exists|j: int| 0 <= j < i && #[trigger] id_mentions_sts(string_views(ids@)[j]),
        decreases ids.len() - i,
    {
        let upper = to_uppercase(ids[i].as_str());
        assert(string_views(ids@)[i as int] == ids@[i as int]@);
        let s_i = str_contains(upper.as_str(), "STS") || str_contains(upper.as_str(), "SECURITY");
        let c_i = str_contains(upper.as_str(), "CTS") || str_contains(upper.as_str(), "COMPATIBILITY")
            || str_contains(upper.as_str(), "GTS") || str_contains(upper.as_str(), "GOOGLE");
        assert(s_i == id_mentions_sts(string_views(ids@)[i as int]));
        assert(c_i == id_mentions_cts_gts(string_views(ids@)[i as int]));
        has_sts = has_sts || s_i;
        has_cts_gts = has_cts_gts || c_i;
        i = i + 1;
    }
    (has_cts_gts, has_sts)
}

/// The device groups a Laundry SMR request must select for its results.
pub fn laundry_smr_selection_check(request: &RunSuiteRequest) -> (r: Result<(), String>)
    ensures
        match r {
            Ok(()) => laundry_pair_error(
                string_views(request.selected_laundry_results@),
                request.user_devices.len() == 0,
                request.userdebug_devices.len() == 0,
            ) is None,
            Err(e) => laundry_pair_error(
                string_views(request.selected_laundry_results@),
                request.user_devices.len() == 0,
                request.userdebug_devices.len() == 0,
            ) == Some(e@),
        },
{
    let (has_cts_gts, has_sts) = mentions_flags(&request.selected_laundry_results);
    let no_user = request.user_devices.len() == 0;
    let no_userdebug = request.userdebug_devices.len() == 0;
    let any = request.selected_laundry_results.len() > 0;
    if any && has_cts_gts && has_sts {
        if no_user || no_userdebug {
            return Err("Laundry SMR needs selected USER and USERDEBUG devices".to_string());
        }
    } else if any && has_cts_gts {
        if no_user {
            return Err("Laundry SMR needs selected USER device for CTS/GTS".to_string());
        }
    } else if any && has_sts {
        if no_userdebug {
            return Err("Laundry SMR needs selected USERDEBUG device for STS".to_string());
        }
    } else if no_user && no_userdebug {
        return Err("Laundry SMR needs at least one device".to_string());
    }
    Ok(())
}

/// The model a device reports, `UNKNOWN_MODEL` when it reports none.
pub open spec fn model_of(props: Map<Seq<char>, Seq<char>>) -> Seq<char> {
    first_non_blank(seq![prop_value(props, "ro.product.model"@), "UNKNOWN_MODEL"@], 0)
}

/// The distinct texts, each where it first occurs.
pub open spec fn distinct_in_order(s: Seq<Seq<char>>) -> Seq<Seq<char>>
    decreases s.len(),
{
    if s.len() == 0 {
        seq![]
    } else {
        let r = distinct_in_order(s.drop_last());
        if r.contains(s.last()) { r } else { r.push(s.last()) }
    }
}

pub open spec fn props_views(props: Seq<StrMap<String>>) -> Seq<Map<Seq<char>, Seq<char>>> {
    props.map_values(|m: StrMap<String>| string_map_view(m.view()))
}

/// The models of the devices, once each, in order.
pub open spec fn device_models(props: Seq<Map<Seq<char>, Seq<char>>>) -> Seq<Seq<char>> {
    distinct_in_order(props.map_values(|p: Map<Seq<char>, Seq<char>>| model_of(p)))
}

pub open spec fn model_error(props: Seq<Map<Seq<char>, Seq<char>>>) -> Option<Seq<char>> {
    if device_models(props).len() > 1 {
        Some("Laundry SMR devices must use the same model: "@ + join_sep(device_models(props), ", "@))
    } else {
        None
    }
}

fn model_of_exec(props: &StrMap<String>) -> (r: String)
    ensures
        r@ == model_of(string_map_view(props.view())),
{
    let models = vec![prop(props, "ro.product.model"), "UNKNOWN_MODEL".to_string()];
    assert(str_views(models@) =~= seq![prop_value(string_map_view(props.view()), "ro.product.model"@), "UNKNOWN_MODEL"@]);
    first_non_empty(&models)
}

/// Laundry SMR devices must all be of one model; `props` holds the
/// properties read from each selected device.
pub fn same_model_check(props: &Vec<StrMap<String>>) -> (r: Result<(), String>)
    ensures
        match r {
            Ok(()) => model_error(props_views(props@)) is None,
            Err(e) => model_error(props_views(props@)) == Some(e@),
        },
{
    let ghost pv = props_views(props@);
    let ghost ms = pv.map_values(|p: Map<Seq<char>, Seq<char>>| model_of(p));
    let mut models: Vec<String> = Vec::new();
    let mut i: usize = 0;
    while i < props.len()
        invariant
            i <= props.len(),
            pv == props_views(props@),
            ms == pv.map_values(|p: Map<Seq<char>, Seq<char>>| model_of(p)),
            string_views(models@) == distinct_in_order(ms.take(i as int)),
        decreases props.len() - i,
    {
        let model = model_of_exec(&props[i]);
        proof {
            assert(ms.take(i + 1).drop_last() =~= ms.take(i as int));
            assert(ms.take(i + 1).last() == model@);
        }
        let known = contains_string(&models, &chars_of(model.as_str()));
        if !known {
            let ghost before = models@;
            models.push(model);
            assert(string_views(models@) =~= string_views(before).push(ms[i as int]));
        }
        i = i + 1;
    }
    assert(ms.take(props.len() as int) =~= ms);
    if models.len() > 1 {
        let mut msg = "Laundry SMR devices must use the same model: ".to_string();
        let joined = join_strings(&models, ", ");
        msg.append(joined.as_str());
        assert(text_views(models@) =~= string_views(models@));
        Err(msg)
    } else {
        Ok(())
    }
}

/// Checks the pairing of a Laundry SMR request: the groups its results need,
/// then one model across the devices.
pub fn validate_laundry_smr_pair(request: &RunSuiteRequest, props: &Vec<StrMap<String>>) -> (r: Result<(), String>)
    ensures
        match r {
            Ok(()) => laundry_pair_error(
                string_views(request.selected_laundry_results@),
                request.user_devices.len() == 0,
                request.userdebug_devices.len() == 0,
            ) is None && model_error(props_views(props@)) is None,
            Err(e) => laundry_pair_error(
                string_views(request.selected_laundry_results@),
                request.user_devices.len() == 0,
                request.userdebug_devices.len() == 0,
            ) == Some(e@) || (laundry_pair_error(
                string_views(request.selected_laundry_results@),
                request.user_devices.len() == 0,
                request.userdebug_devices.len() == 0,
            ) is None && model_error(props_views(props@)) == Some(e@)),
        },
{
    match laundry_smr_selection_check(request) {
        Err(e) => Err(e),
        Ok(()) => same_model_check(props),
    }
}

/// Whether the request carries no laundry zip (absent or blank).
pub open spec fn zip_missing(path: Option<String>) -> bool {
    match path {
        None => true,
        Some(p) => trim(p@).len() == 0,
    }
}

/// What `validate_request` refuses, in the order it checks.
pub open spec fn request_error(request: RunSuiteRequest, props: Seq<Map<Seq<char>, Seq<char>>>) -> Option<Seq<char>> {
    let tt = request.test_type@;
    let no_user = request.user_devices.len() == 0;
    let no_userdebug = request.userdebug_devices.len() == 0;
    let pair = laundry_pair_error(string_views(request.selected_laundry_results@), no_user, no_userdebug);
    if tt == "Laundry SMR"@ && pair is Some {
        pair
    } else if tt == "Laundry SMR"@ && model_error(props) is Some {
        model_error(props)
    } else if tt == "Laundry Normal"@ && no_user {
        Some("Laundry Normal needs at least one non-userdebug device"@)
    } else if (tt == "Laundry Normal"@ || tt == "Laundry SMR"@) && zip_missing(request.laundry_zip_path) {
        Some(tt + " needs laundry zip file"@)
    } else if (tt == "Cuci SMR"@ || tt == "MR"@ || tt == "SKU"@) && no_user {
        Some(tt + " needs at least one non-userdebug device"@)
    } else if tt == "STS"@ && no_userdebug {
        Some("STS needs at least one userdebug device"@)
    } else if tt == "SMR"@ && no_user && no_userdebug {
        Some(tt + " needs at least one non-userdebug or userdebug device"@)
    } else {
        None
    }
}

/// Refuses a request whose test type lacks the devices or the laundry zip it
/// needs; `props` holds the properties read from each selected device.
pub fn validate_request(request: &RunSuiteRequest, props: &Vec<StrMap<String>>) -> (r: Result<(), String>)
    ensures
        match r {
            Ok(()) => request_error(*request, props_views(props@)) is None,
            Err(e) => request_error(*request, props_views(props@)) == Some(e@),
        },
{
    let tt = request.test_type.as_str();
    let no_user = request.user_devices.len() == 0;
    let no_userdebug = request.userdebug_devices.len() == 0;
    if str_eq(tt, "Laundry SMR") {
        match validate_laundry_smr_pair(request, props) {
            Err(e) => return Err(e),
            Ok(()) => {},
        }
    }
    let zip_missing = match &request.laundry_zip_path {
        None => true,
        Some(p) => is_blank(&chars_of(p.as_str())),
    };
    if str_eq(tt, "Laundry Normal") && no_user {
        return Err("Laundry Normal needs at least one non-userdebug device".to_string());
    }
    if (str_eq(tt, "Laundry Normal") || str_eq(tt, "Laundry SMR")) && zip_missing {
        let mut msg = request.test_type.clone();
        msg.append(" needs laundry zip file");
        return Err(msg);
    }
    if (str_eq(tt, "Cuci SMR") || str_eq(tt, "MR") || str_eq(tt, "SKU")) && no_user {
        let mut msg = request.test_type.clone();
        msg.append(" needs at least one non-userdebug device");
        return Err(msg);
    }
    if str_eq(tt, "STS") && no_userdebug {
        return Err("STS needs at least one userdebug device".to_string());
    }
    if str_eq(tt, "SMR") && no_user && no_userdebug {
        let mut msg = request.test_type.clone();
        msg.append(" needs at least one non-userdebug or userdebug device");
        return Err(msg);
    }
    Ok(())
}

} // verus!

verus! {

pub proof fn lemma_test_types_differ()
    ensures
        "Laundry SMR"@ != "Laundry Normal"@,
        "Laundry SMR"@ != "Cuci SMR"@,
        "Laundry SMR"@ != "MR"@,
        "Laundry SMR"@ != "SKU"@,
        "Laundry SMR"@ != "STS"@,
        "Laundry SMR"@ != "SMR"@,
        "Laundry Normal"@ != "Cuci SMR"@,
        "Laundry Normal"@ != "MR"@,
        "Laundry Normal"@ != "SKU"@,
        "Laundry Normal"@ != "STS"@,
        "Laundry Normal"@ != "SMR"@,
        "Cuci SMR"@ != "MR"@,
        "Cuci SMR"@ != "SKU"@,
        "Cuci SMR"@ != "STS"@,
        "Cuci SMR"@ != "SMR"@,
        "MR"@ != "SKU"@,
        "MR"@ != "STS"@,
        "MR"@ != "SMR"@,
        "SKU"@ != "STS"@,
        "SKU"@ != "SMR"@,
        "STS"@ != "SMR"@,
{
    reveal_strlit("Laundry SMR");
    reveal_strlit("Laundry Normal");
    reveal_strlit("Cuci SMR");
    reveal_strlit("MR");
    reveal_strlit("SKU");
    reveal_strlit("STS");
    reveal_strlit("SMR");
    assert("Laundry SMR"@.len() == 11);
    assert("Laundry Normal"@.len() == 14);
    assert("Cuci SMR"@.len() == 8);
    assert("MR"@.len() == 2);
    assert("SKU"@.len() == 3);
    assert("STS"@.len() == 3);
    assert("SMR"@.len() == 3);
    assert("SKU"@[1] != "STS"@[1]);
    assert("SKU"@[1] != "SMR"@[1]);
    assert("STS"@[1] != "SMR"@[1]);
}

/// A request that passes validation has the devices and the zip its test
/// type runs on.
pub proof fn law_valid_request_has_its_devices(request: RunSuiteRequest, props: Seq<Map<Seq<char>, Seq<char>>>)
    requires
        request_error(request, props) is None,
    ensures
        request.test_type@ == "STS"@ ==> request.userdebug_devices.len() > 0,
        (request.test_type@ == "Cuci SMR"@ || request.test_type@ == "MR"@ || request.test_type@ == "SKU"@
            || request.test_type@ == "Laundry Normal"@) ==> request.user_devices.len() > 0,
        (request.test_type@ == "SMR"@ || request.test_type@ == "Laundry SMR"@) ==> request.user_devices.len() > 0
            || request.userdebug_devices.len() > 0,
        (request.test_type@ == "Laundry Normal"@ || request.test_type@ == "Laundry SMR"@) ==> !zip_missing(
            request.laundry_zip_path,
        ),
{
    lemma_test_types_differ();
}

/// A request that has what its test type needs is accepted: SMR with any
/// device at all, STS with a userdebug device, Cuci SMR, MR and SKU with a
/// non-userdebug device, Laundry Normal with a non-userdebug device and a
/// zip; a test type without such a rule is always accepted.
pub proof fn law_request_with_its_devices_is_valid(request: RunSuiteRequest, props: Seq<Map<Seq<char>, Seq<char>>>)
    ensures
        request.test_type@ == "SMR"@ && (request.user_devices.len() > 0 || request.userdebug_devices.len() > 0)
            ==> request_error(request, props) is None,
        request.test_type@ == "STS"@ && request.userdebug_devices.len() > 0 ==> request_error(request, props) is None,
        (request.test_type@ == "Cuci SMR"@ || request.test_type@ == "MR"@ || request.test_type@ == "SKU"@)
            && request.user_devices.len() > 0 ==> request_error(request, props) is None,
        request.test_type@ == "Laundry Normal"@ && request.user_devices.len() > 0 && !zip_missing(
            request.laundry_zip_path,
        ) ==> request_error(request, props) is None,
        request.test_type@ != "SMR"@ && request.test_type@ != "STS"@ && request.test_type@ != "Cuci SMR"@
            && request.test_type@ != "MR"@ && request.test_type@ != "SKU"@ && request.test_type@ != "Laundry Normal"@
            && request.test_type@ != "Laundry SMR"@ ==> request_error(request, props) is None,
{
    lemma_test_types_differ();
}

} // verus!
