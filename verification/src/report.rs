use vstd::prelude::*;

use crate::devices::{
    first_non_blank, first_non_empty, getprop_pair, is_userdebug_build, is_userdebug_build_spec,
    parse_getprop_line, prop, prop_value, str_views, string_map_view, token_value, token_value_spec,
};
use crate::names::{redact, redacted, xml_escape, xml_escaped};
use crate::registry::{device_view, opt_view, BusyDevice, DeviceView};
use crate::strmap::StrMap;
use crate::text::{
    chars_of, contains, ends_with, ends_with_exec, lines, matches_at, lines_exec, lowercase, str_contains, string_of,
    text_views, to_lowercase, trim, trim_vec, views,
};

verus! {

/// The properties that `ro.xml` lists, in order.
pub open spec fn ro_keys() -> Seq<Seq<char>> {
    seq![
        "ro.build.fingerprint"@,
        "ro.build.version.base_os"@,
        "ro.build.version.security_patch"@,
        "ro.build.PDA"@,
        "ril.sw_ver"@,
        "ril.official_cscver"@,
        "ro.product.first_api_level"@,
        "ro.sts.property"@,
        "ro.csc.sales_code"@,
        "ro.oem.key1"@,
        "ro.oem.key2"@,
        "ro.csc.countryiso_code"@,
        "ro.csc.country_code"@,
        "ro.system.build.fingerprint"@,
        "ro.vendor.build.fingerprint"@,
        "ro.product.build.version.sdk"@,
        "ro.build.version.sdk_full"@,
        "partition.system.verified.root_digest"@,
        "partition.vendor.verified.root_digest"@,
        "partition.system_dlkm.verified.root_digest"@,
        "partition.vendor_dlkm.verified.root_digest"@,
        "partition.odm.verified.root_digest"@,
        "partition.product.verified.root_digest"@,
        "ro.build.characteristics"@,
        "ro.build.version.oneui"@,
        "ro.build.version.emergency_base_os"@,
        "partition.system_ext.verified.root_digest"@,
    ]
}

fn ro_keys_exec() -> (r: Vec<&'static str>)
    ensures
        r@.map_values(|k: &str| k@) == ro_keys(),
{
    let r = vec![
        "ro.build.fingerprint",
        "ro.build.version.base_os",
        "ro.build.version.security_patch",
        "ro.build.PDA",
        "ril.sw_ver",
        "ril.official_cscver",
        "ro.product.first_api_level",
        "ro.sts.property",
        "ro.csc.sales_code",
        "ro.oem.key1",
        "ro.oem.key2",
        "ro.csc.countryiso_code",
        "ro.csc.country_code",
        "ro.system.build.fingerprint",
        "ro.vendor.build.fingerprint",
        "ro.product.build.version.sdk",
        "ro.build.version.sdk_full",
        "partition.system.verified.root_digest",
        "partition.vendor.verified.root_digest",
        "partition.system_dlkm.verified.root_digest",
        "partition.vendor_dlkm.verified.root_digest",
        "partition.odm.verified.root_digest",
        "partition.product.verified.root_digest",
        "ro.build.characteristics",
        "ro.build.version.oneui",
        "ro.build.version.emergency_base_os",
        "partition.system_ext.verified.root_digest",
    ];
    assert(r@.map_values(|k: &str| k@) =~= ro_keys());
    r
}

/// One property of `ro.xml`: `<key>value\n</key>\n`, the value escaped.
pub open spec fn prop_entry(props: Map<Seq<char>, Seq<char>>, key: Seq<char>) -> Seq<char> {
    "<"@ + key + ">"@ + xml_escaped(prop_value(props, key)) + "\n</"@ + key + ">\n"@
}

pub open spec fn prop_entries(props: Map<Seq<char>, Seq<char>>, keys: Seq<Seq<char>>) -> Seq<char>
    decreases keys.len(),
{
    if keys.len() == 0 {
        seq![]
    } else {
        prop_entries(props, keys.drop_last()) + prop_entry(props, keys.last())
    }
}

/// The client id lines of `getprop`, each as `\n<key>value</key>\n`.
pub open spec fn client_id_entries(ls: Seq<Seq<char>>) -> Seq<char>
    decreases ls.len(),
{
    if ls.len() == 0 {
        seq![]
    } else {
        client_id_entries(ls.drop_last()) + match getprop_pair(ls.last()) {
            Some((k, v)) => "\n<"@ + k + ">"@ + xml_escaped(v) + "</"@ + k + ">\n"@,
            None => seq![],
        }
    }
}

/// The default messaging app a role query names.
pub open spec fn message_app(sms: Seq<char>) -> Seq<char> {
    if contains(sms, "com.google.android.apps.messaging"@) {
        "Android Message"@
    } else if contains(sms, "com.samsung.android.messaging"@) {
        "Samsung Message"@
    } else {
        "Not Found"@
    }
}

/// The default browser an activity query names.
pub open spec fn browser_app(browser: Seq<char>) -> Seq<char> {
    if contains(browser, "com.android.chrome"@) {
        "Chrome"@
    } else if contains(browser, "com.sec.android.app.sbrowser"@) {
        "S-Browser"@
    } else {
        "Not Found"@
    }
}

/// `ro.xml` for a device: its listed properties, whether it is a watch,
/// its messaging app and browser, and its client ids.
pub open spec fn ro_xml(
    props: Map<Seq<char>, Seq<char>>,
    features: Seq<char>,
    sms: Seq<char>,
    browser: Seq<char>,
    client_ids: Seq<char>,
) -> Seq<char> {
    "<RO>\n\n"@ + prop_entries(props, ro_keys()) + "\n<isWatch>"@ + (if contains(
        features,
        "feature:android.hardware.type.watch"@,
    ) {
        "true"@
    } else {
        "false"@
    }) + "</isWatch>\n"@ + "\n<message>"@ + message_app(sms) + "</message>\n"@ + "\n<browser>"@
        + browser_app(browser) + "</browser>\n"@ + client_id_entries(lines(client_ids))
        + "\n<ro.version>4.4</ro.version>\n</RO>\n"@
}

pub fn ro_xml_text(props: &StrMap<String>, features: &str, sms: &str, browser: &str, client_ids: &str) -> (r: String)
    ensures
        r@ == ro_xml(string_map_view(props.view()), features@, sms@, browser@, client_ids@),
{
    let ghost pm = string_map_view(props.view());
    let keys = ro_keys_exec();
    let ghost kv = keys@.map_values(|k: &str| k@);
    let mut text = "<RO>\n\n".to_string();
    let mut i: usize = 0;
    while i < keys.len()
        invariant
            i <= keys.len(),
            kv == keys@.map_values(|k: &str| k@),
            kv == ro_keys(),
            pm == string_map_view(props.view()),
            text@ == "<RO>\n\n"@ + prop_entries(pm, kv.take(i as int)),
        decreases keys.len() - i,
    {
        let key = keys[i];
        let val = xml_escape(prop(props, key).as_str());
        text.append("<");
        text.append(key);
        text.append(">");
        text.append(val.as_str());
        text.append("\n</");
        text.append(key);
        text.append(">\n");
        proof {
            assert(kv.take(i + 1).drop_last() =~= kv.take(i as int));
            assert(kv.take(i + 1).last() == key@);
        }
        i = i + 1;
    }
    assert(kv.take(keys.len() as int) =~= kv);
    text.append("\n<isWatch>");
    if str_contains(features, "feature:android.hardware.type.watch") {
        text.append("true");
    } else {
        text.append("false");
    }
    text.append("</isWatch>\n");
    text.append("\n<message>");
    if str_contains(sms, "com.google.android.apps.messaging") {
        text.append("Android Message");
    } else if str_contains(sms, "com.samsung.android.messaging") {
        text.append("Samsung Message");
    } else {
        text.append("Not Found");
    }
    text.append("</message>\n");
    text.append("\n<browser>");
    if str_contains(browser, "com.android.chrome") {
        text.append("Chrome");
    } else if str_contains(browser, "com.sec.android.app.sbrowser") {
        text.append("S-Browser");
    } else {
        text.append("Not Found");
    }
    text.append("</browser>\n");
    let ghost head = text@;
    let ls = lines_exec(&chars_of(client_ids));
    let ghost lv = views(ls@);
    let mut j: usize = 0;
    while j < ls.len()
        invariant
            j <= ls.len(),
            lv == views(ls@),
            text@ == head + client_id_entries(lv.take(j as int)),
        decreases ls.len() - j,
    {
        proof {
            assert(lv.take(j + 1).drop_last() =~= lv.take(j as int));
            assert(lv.take(j + 1).last() == ls@[j as int]@);
        }
        let line = string_of(&ls[j]);
        match parse_getprop_line(line.as_str()) {
            Some((k, v)) => {
                text.append("\n<");
                text.append(k.as_str());
                text.append(">");
                text.append(xml_escape(v.as_str()).as_str());
                text.append("</");
                text.append(k.as_str());
                text.append(">\n");
            },
            None => {},
        }
        j = j + 1;
    }
    assert(lv.take(ls.len() as int) =~= lv);
    text.append("\n<ro.version>4.4</ro.version>\n</RO>\n");
    text
}

} // verus!

verus! {

/// What a Wi-Fi connect request answered: a failure names itself (the
/// password masked); otherwise the trimmed answer (masked), or a note that
/// the connection was requested when the answer is blank.
pub open spec fn wifi_outcome_spec(ssid: Seq<char>, password: Seq<char>, output: Seq<char>) -> Result<Seq<char>, Seq<char>> {
    let lower = lowercase(output);
    if contains(lower, "failed"@) || contains(lower, "error"@) {
        Err(redacted(output, password))
    } else if trim(output).len() == 0 {
        Ok("connect requested for \""@ + ssid + "\""@)
    } else {
        Ok(redacted(trim(output), password))
    }
}

pub fn wifi_outcome(ssid: &str, password: &str, output: &str) -> (r: Result<String, String>)
    ensures
        match r {
            Ok(m) => wifi_outcome_spec(ssid@, password@, output@) == Ok::<Seq<char>, Seq<char>>(m@),
            Err(e) => wifi_outcome_spec(ssid@, password@, output@) == Err::<Seq<char>, Seq<char>>(e@),
        },
{
    let lower = to_lowercase(output);
    if str_contains(lower.as_str(), "failed") || str_contains(lower.as_str(), "error") {
        return Err(redact(output, password));
    }
    let tv = trim_vec(&chars_of(output));
    let t = string_of(&tv);
    if tv.len() == 0 {
        let mut m = "connect requested for \"".to_string();
        m.append(ssid);
        m.append("\"");
        Ok(m)
    } else {
        Ok(redact(t.as_str(), password))
    }
}

/// The `adb shell` arguments that join a network: open without a
/// password, WPA2 with one.
pub open spec fn wifi_args_spec(ssid: Seq<char>, password: Seq<char>) -> Seq<Seq<char>> {
    if password.len() == 0 {
        seq!["shell"@, "cmd"@, "wifi"@, "connect-network"@, ssid, "open"@]
    } else {
        seq!["shell"@, "cmd"@, "wifi"@, "connect-network"@, ssid, "wpa2"@, password]
    }
}

pub fn wifi_connect_args(ssid: &str, password: &str) -> (r: Vec<String>)
    ensures
        text_views(r@) == wifi_args_spec(ssid@, password@),
{
    let mut r: Vec<String> = Vec::new();
    r.push("shell".to_string());
    r.push("cmd".to_string());
    r.push("wifi".to_string());
    r.push("connect-network".to_string());
    r.push(ssid.to_string());
    if chars_of(password).len() == 0 {
        r.push("open".to_string());
        assert(text_views(r@) =~= wifi_args_spec(ssid@, password@));
    } else {
        r.push("wpa2".to_string());
        r.push(password.to_string());
        assert(text_views(r@) =~= wifi_args_spec(ssid@, password@));
    }
    r
}

/// A device as the device list shows it.
pub struct DeviceInfo {
    pub serial: String,
    pub state: String,
    pub is_userdebug: bool,
    pub fingerprint: String,
    pub security_patch: String,
    pub android: String,
    pub sdk: String,
    pub sales_code: String,
    pub model: String,
    pub pda: String,
    pub cp: String,
    pub csc: String,
    pub ip: String,
    pub busy: bool,
    pub busy_reason: String,
    pub run_id: Option<String>,
    pub result_dir: Option<String>,
}

/// Properties and address are only read from a device that is online.
pub fn device_is_online(state: &str) -> (r: bool)
    ensures
        r == (state@ == "device"@),
{
    crate::text::str_eq(state, "device")
}

/// What the list says of a device, from its `adb devices -l` line, its
/// properties and address, and the registry's record of it.
pub open spec fn device_info_is(
    r: DeviceInfo,
    line: Seq<char>,
    serial: Seq<char>,
    state: Seq<char>,
    p: Map<Seq<char>, Seq<char>>,
    ip: Seq<char>,
    busy: Option<DeviceView>,
) -> bool {
    &&& r.serial@ == serial
    &&& r.state@ == state
    &&& r.is_userdebug == is_userdebug_build_spec(prop_value(p, "ro.build.fingerprint"@), prop_value(p, "ro.build.type"@))
    &&& r.fingerprint@ == prop_value(p, "ro.build.fingerprint"@)
    &&& r.security_patch@ == prop_value(p, "ro.build.version.security_patch"@)
    &&& r.android@ == prop_value(p, "ro.build.version.release"@)
    &&& r.sdk@ == prop_value(p, "ro.product.build.version.sdk"@)
    &&& r.sales_code@ == prop_value(p, "ro.csc.sales_code"@)
    &&& r.model@ == first_non_blank(seq![prop_value(p, "ro.product.model"@), token_value_spec(trim(line), "model"@)], 0)
    &&& r.pda@ == prop_value(p, "ro.build.PDA"@)
    &&& r.cp@ == first_non_blank(seq![prop_value(p, "ril.sw_ver"@), prop_value(p, "gsm.version.baseband"@)], 0)
    &&& r.csc@ == prop_value(p, "ril.official_cscver"@)
    &&& r.ip@ == ip
    &&& r.busy == busy is Some
    &&& r.busy_reason@ == (match busy {
        Some(d) => d.2 + " "@ + d.6,
        None => seq![],
    })
    &&& opt_view(r.run_id) == (match busy {
        Some(d) => Some(d.5),
        None => None,
    })
    &&& opt_view(r.result_dir) == (match busy {
        Some(d) => d.7,
        None => None,
    })
}

pub fn device_info(
    line: &str,
    serial: &str,
    state: &str,
    props: &StrMap<String>,
    ip: &str,
    busy: Option<&BusyDevice>,
) -> (r: DeviceInfo)
    ensures
        device_info_is(r, line@, serial@, state@, string_map_view(props.view()), ip@, match busy {
            Some(d) => Some(device_view(*d)),
            None => None,
        }),
{
    let ghost pm = string_map_view(props.view());
    let fingerprint = prop(props, "ro.build.fingerprint");
    let build_type = prop(props, "ro.build.type");
    let trimmed = string_of(&trim_vec(&chars_of(line)));
    let models = vec![prop(props, "ro.product.model"), token_value(trimmed.as_str(), "model")];
    assert(str_views(models@) =~= seq![prop_value(pm, "ro.product.model"@), token_value_spec(trim(line@), "model"@)]);
    let cps = vec![prop(props, "ril.sw_ver"), prop(props, "gsm.version.baseband")];
    assert(str_views(cps@) =~= seq![prop_value(pm, "ril.sw_ver"@), prop_value(pm, "gsm.version.baseband"@)]);
    let (busy_flag, reason, run_id, result_dir) = match busy {
        Some(d) => {
            let mut reason = d.test_type.clone();
            reason.append(" ");
            reason.append(d.started_at.as_str());
            let rd = match &d.result_dir {
                Some(x) => Some(x.clone()),
                None => None,
            };
            (true, reason, Some(d.run_id.clone()), rd)
        },
        None => (false, String::new(), None, None),
    };
    DeviceInfo {
        serial: serial.to_string(),
        state: state.to_string(),
        is_userdebug: is_userdebug_build(fingerprint.as_str(), build_type.as_str()),
        fingerprint,
        security_patch: prop(props, "ro.build.version.security_patch"),
        android: prop(props, "ro.build.version.release"),
        sdk: prop(props, "ro.product.build.version.sdk"),
        sales_code: prop(props, "ro.csc.sales_code"),
        model: first_non_empty(&models),
        pda: prop(props, "ro.build.PDA"),
        cp: first_non_empty(&cps),
        csc: prop(props, "ril.official_cscver"),
        ip: ip.to_string(),
        busy: busy_flag,
        busy_reason: reason,
        run_id,
        result_dir,
    }
}

/// A deviceinfo backup that a staged result should not keep.
pub open spec fn is_deviceinfo_backup_spec(name: Seq<char>) -> bool {
    (contains(name, "PropertyDeviceInfo"@) || contains(name, "ClientIdDeviceInfo"@)) && ends_with(name, ".bak"@)
}

pub fn is_deviceinfo_backup(name: &str) -> (r: bool)
    ensures
        r == is_deviceinfo_backup_spec(name@),
{
    (str_contains(name, "PropertyDeviceInfo") || str_contains(name, "ClientIdDeviceInfo"))
        && ends_with_exec(&chars_of(name), &chars_of(".bak"))
}

/// The latest of the found files by modification time, the last of equals,
/// leaving out those whose time could not be read (`max_by_key`).
pub open spec fn latest_index(items: Seq<(Seq<char>, Option<u128>)>, n: int) -> Option<int>
    decreases n,
{
    if n <= 0 || n > items.len() {
        None
    } else {
        let rest = latest_index(items, n - 1);
        match items[n - 1].1 {
            None => rest,
            Some(t) => match rest {
                Some(b) => if t >= items[b].1->0 { Some(n - 1) } else { Some(b) },
                None => Some(n - 1),
            },
        }
    }
}

pub proof fn lemma_latest_index(items: Seq<(Seq<char>, Option<u128>)>, n: int)
    requires
        0 <= n <= items.len(),
    ensures
        latest_index(items, n) matches Some(b) ==> 0 <= b < n && items[b].1 is Some,
    decreases n,
{
    if n > 0 {
        lemma_latest_index(items, n - 1);
    }
}

pub open spec fn timed_views(v: Seq<(String, Option<u128>)>) -> Seq<(Seq<char>, Option<u128>)> {
    v.map_values(|p: (String, Option<u128>)| (p.0@, p.1))
}

pub fn latest_by_time(items: &Vec<(String, Option<u128>)>) -> (r: Option<String>)
    ensures
        match r {
            Some(p) => latest_index(timed_views(items@), items.len() as int) matches Some(b) && p@ == timed_views(items@)[b].0,
            None => latest_index(timed_views(items@), items.len() as int) is None,
        },
{
    let ghost tv = timed_views(items@);
    let mut best: Option<usize> = None;
    let mut best_t: u128 = 0;
    let mut i: usize = 0;
    while i < items.len()
        invariant
            i <= items.len(),
            tv == timed_views(items@),
            best == (match latest_index(tv, i as int) {
                Some(b) => Some(b as usize),
                None => None::<usize>,
            }),
            best matches Some(b) ==> tv[b as int].1 == Some(best_t),
        decreases items.len() - i,
    {
        proof {
            lemma_latest_index(tv, i as int);
        }
        match items[i].1 {
            None => {},
            Some(t) => {
                match best {
                    Some(_) => {
                        if t >= best_t {
                            best = Some(i);
                            best_t = t;
                        }
                    },
                    None => {
                        best = Some(i);
                        best_t = t;
                    },
                }
            },
        }
        i = i + 1;
    }
    proof {
        lemma_latest_index(tv, items.len() as int);
    }
    match best {
        Some(b) => Some(items[b].0.clone()),
        None => None,
    }
}

proof fn lemma_contains_middle(a: Seq<char>, m: Seq<char>, b: Seq<char>)
    ensures
        contains(a + m + b, m),
{
    assert((a + m + b).subrange(a.len() as int, (a.len() + m.len()) as int) =~= m);
    assert(matches_at(a + m + b, m, a.len() as int));
}

/// `ro.xml` always names the device's default browser and messaging app as
/// the queries report them: a query naming `com.android.chrome` gives
/// Chrome, one naming `com.sec.android.app.sbrowser` (and not Chrome) gives
/// S-Browser, any other gives Not Found; likewise Google's messaging app
/// gives Android Message and Samsung's (without Google's) Samsung Message.
pub proof fn law_ro_xml_names_default_apps(
    props: Map<Seq<char>, Seq<char>>,
    features: Seq<char>,
    sms: Seq<char>,
    browser: Seq<char>,
    client_ids: Seq<char>,
)
    ensures
        contains(browser, "com.android.chrome"@) ==> contains(
            ro_xml(props, features, sms, browser, client_ids),
            "\n<browser>Chrome</browser>\n"@,
        ),
        contains(browser, "com.sec.android.app.sbrowser"@) && !contains(browser, "com.android.chrome"@) ==> contains(
            ro_xml(props, features, sms, browser, client_ids),
            "\n<browser>S-Browser</browser>\n"@,
        ),
        !contains(browser, "com.sec.android.app.sbrowser"@) && !contains(browser, "com.android.chrome"@) ==> contains(
            ro_xml(props, features, sms, browser, client_ids),
            "\n<browser>Not Found</browser>\n"@,
        ),
        contains(sms, "com.google.android.apps.messaging"@) ==> contains(
            ro_xml(props, features, sms, browser, client_ids),
            "\n<message>Android Message</message>\n"@,
        ),
        contains(sms, "com.samsung.android.messaging"@) && !contains(sms, "com.google.android.apps.messaging"@)
            ==> contains(ro_xml(props, features, sms, browser, client_ids), "\n<message>Samsung Message</message>\n"@),
        !contains(sms, "com.samsung.android.messaging"@) && !contains(sms, "com.google.android.apps.messaging"@)
            ==> contains(ro_xml(props, features, sms, browser, client_ids), "\n<message>Not Found</message>\n"@),
{
    let watch: Seq<char> = if contains(features, "feature:android.hardware.type.watch"@) {
        "true"@
    } else {
        "false"@
    };
    let head = "<RO>\n\n"@ + prop_entries(props, ro_keys()) + "\n<isWatch>"@ + watch + "</isWatch>\n"@;
    let msg = "\n<message>"@ + message_app(sms) + "</message>\n"@;
    let brw = "\n<browser>"@ + browser_app(browser) + "</browser>\n"@;
    let tail = client_id_entries(lines(client_ids)) + "\n<ro.version>4.4</ro.version>\n</RO>\n"@;
    let x = ro_xml(props, features, sms, browser, client_ids);
    assert(x =~= head + msg + (brw + tail));
    assert(x =~= (head + msg) + brw + tail);
    lemma_contains_middle(head, msg, brw + tail);
    lemma_contains_middle(head + msg, brw, tail);
    reveal_strlit("\n<browser>");
    reveal_strlit("</browser>\n");
    reveal_strlit("\n<message>");
    reveal_strlit("</message>\n");
    reveal_strlit("Chrome");
    reveal_strlit("S-Browser");
    reveal_strlit("Not Found");
    reveal_strlit("Android Message");
    reveal_strlit("Samsung Message");
    reveal_strlit("\n<browser>Chrome</browser>\n");
    reveal_strlit("\n<browser>S-Browser</browser>\n");
    reveal_strlit("\n<browser>Not Found</browser>\n");
    reveal_strlit("\n<message>Android Message</message>\n");
    reveal_strlit("\n<message>Samsung Message</message>\n");
    reveal_strlit("\n<message>Not Found</message>\n");
    assert("\n<browser>"@ + "Chrome"@ + "</browser>\n"@ =~= "\n<browser>Chrome</browser>\n"@);
    assert("\n<browser>"@ + "S-Browser"@ + "</browser>\n"@ =~= "\n<browser>S-Browser</browser>\n"@);
    assert("\n<browser>"@ + "Not Found"@ + "</browser>\n"@ =~= "\n<browser>Not Found</browser>\n"@);
    assert("\n<message>"@ + "Android Message"@ + "</message>\n"@ =~= "\n<message>Android Message</message>\n"@);
    assert("\n<message>"@ + "Samsung Message"@ + "</message>\n"@ =~= "\n<message>Samsung Message</message>\n"@);
    assert("\n<message>"@ + "Not Found"@ + "</message>\n"@ =~= "\n<message>Not Found</message>\n"@);
}

} // verus!
