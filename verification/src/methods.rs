//! The methods of the protocol, and the commands that they name.
use vstd::prelude::*;

use crate::browser;
use crate::browser::BrowserCommand;
use crate::requests::ScriptAction;
use crate::session;
use crate::session::Domain;
use crate::session::SessionCommand;
use crate::text;

verus! {

/// The method is one of those that are accepted without having any effect.
pub open spec fn is_idle(method: Seq<char>) -> bool {
    ||| method == "Emulation.setDeviceMetricsOverride"@
    ||| method == "Emulation.clearDeviceMetricsOverride"@
    ||| method == "Emulation.setUserAgentOverride"@
    ||| method == "Emulation.setEmulatedMedia"@
    ||| method == "Emulation.setTouchEmulationEnabled"@
    ||| method == "Emulation.setScriptExecutionDisabled"@
    ||| method == "Emulation.setScrollbarsHidden"@
    ||| method == "Emulation.setCPUThrottlingRate"@
    ||| method == "Emulation.setAutoDarkModeOverride"@
    ||| method == "Emulation.setLocaleOverride"@
    ||| method == "Emulation.setTimezoneOverride"@
    ||| method == "Emulation.setVirtualTimePolicy"@
    ||| method == "Emulation.setAutomationOverride"@
    ||| method == "Page.setLifecycleEventsEnabled"@
    ||| method == "Page.setBypassCSP"@
    ||| method == "Page.setInterceptFileChooserDialog"@
    ||| method == "Page.setAdBlockingEnabled"@
    ||| method == "Page.setDownloadBehavior"@
    ||| method == "Runtime.setAsyncCallStackDepth"@
    ||| method == "Runtime.setMaxCallStackSizeToCapture"@
    ||| method == "Network.setBypassServiceWorker"@
    ||| method == "Network.setCacheDisabled"@
    ||| method == "Network.setAttachDebugStack"@
    ||| method == "Network.setUserAgentOverride"@
    ||| method == "Network.setAcceptedEncodings"@
    ||| method == "Network.clearAcceptedEncodingsOverride"@
    ||| method == "Network.addInterception"@
    ||| method == "Network.removeInterception"@
    ||| method == "Network.continueInterceptedRequest"@
    ||| method == "Log.startViolationsReport"@
    ||| method == "Log.stopViolationsReport"@
    ||| method == "DOM.setInspectedNode"@
    ||| method == "DOM.discardSearchResults"@
    ||| method == "Performance.setTime"@
    ||| method == "Performance.setTimezone"@
    ||| method == "Log.disable"@
    ||| method == "Log.clear"@
    ||| method == "Console.disable"@
    ||| method == "Console.clearMessages"@
    ||| method == "Performance.enable"@
}

/// The method is one of those that are known but refused.
pub open spec fn is_refused(method: Seq<char>) -> bool {
    ||| method == "Page.printToPDF"@
    ||| method == "Page.startScreencast"@
    ||| method == "Page.captureSnapshot"@
    ||| method == "Network.setRequestInterception"@
    ||| method == "DOM.resolveNode"@
    ||| method == "DOM.getNodeForLocation"@
}

/// The method is one of those of a session that do something.
pub open spec fn is_busy(method: Seq<char>) -> bool {
    ||| method == "Page.enable"@
    ||| method == "Page.disable"@
    ||| method == "Page.navigate"@
    ||| method == "Page.reload"@
    ||| method == "Page.goBack"@
    ||| method == "Page.goForward"@
    ||| method == "Page.getNavigationHistory"@
    ||| method == "Page.getFrameTree"@
    ||| method == "Page.getResourceTree"@
    ||| method == "Page.bringToFront"@
    ||| method == "Page.captureScreenshot"@
    ||| method == "Runtime.enable"@
    ||| method == "Runtime.disable"@
    ||| method == "Runtime.evaluate"@
    ||| method == "Runtime.runScript"@
    ||| method == "Runtime.compileScript"@
    ||| method == "Runtime.callFunctionOn"@
    ||| method == "Network.enable"@
    ||| method == "Network.disable"@
    ||| method == "Network.getResponseBody"@
    ||| method == "Network.getCookies"@
    ||| method == "Storage.getCookies"@
    ||| method == "Log.enable"@
    ||| method == "Console.enable"@
    ||| method == "DOM.enable"@
    ||| method == "DOM.disable"@
    ||| method == "DOM.getDocument"@
    ||| method == "DOM.requestChildNodes"@
    ||| method == "DOM.getBoxModel"@
    ||| method == "Console.getMessages"@
    ||| method == "Performance.getMetrics"@
    ||| method == "Schema.getDomains"@
}

/// Every method of a session names its command, and none of them belongs to the
/// `Target` domain; all other methods are unknown.
pub(crate) proof fn lemma_session_methods(method: Seq<char>)
    ensures
        session::session_command("Page.enable"@) == SessionCommand::Enable(Domain::Page),
        session::session_command("Page.disable"@) == SessionCommand::Disable(Domain::Page),
        session::session_command("Page.navigate"@) == SessionCommand::Navigate,
        session::session_command("Page.reload"@) == SessionCommand::Script(ScriptAction::Reload),
        session::session_command("Page.goBack"@) == SessionCommand::Script(ScriptAction::GoBack),
        session::session_command("Page.goForward"@) == SessionCommand::Script(ScriptAction::GoForward),
        session::session_command("Page.getNavigationHistory"@) == SessionCommand::GetNavigationHistory,
        session::session_command("Page.getFrameTree"@) == SessionCommand::GetFrameTree,
        session::session_command("Page.getResourceTree"@) == SessionCommand::GetResourceTree,
        session::session_command("Page.bringToFront"@) == SessionCommand::BringToFront,
        session::session_command("Page.captureScreenshot"@) == SessionCommand::CaptureScreenshot,
        session::session_command("Runtime.enable"@) == SessionCommand::Enable(Domain::Runtime),
        session::session_command("Runtime.disable"@) == SessionCommand::Disable(Domain::Runtime),
        session::session_command("Runtime.evaluate"@) == SessionCommand::Evaluate,
        session::session_command("Runtime.runScript"@) == SessionCommand::RunScript,
        session::session_command("Runtime.compileScript"@) == SessionCommand::CompileScript,
        session::session_command("Runtime.callFunctionOn"@) == SessionCommand::CallFunctionOn,
        session::session_command("Network.enable"@) == SessionCommand::Enable(Domain::Network),
        session::session_command("Network.disable"@) == SessionCommand::Disable(Domain::Network),
        session::session_command("Network.getResponseBody"@) == SessionCommand::GetResponseBody,
        session::session_command("Network.getCookies"@) == SessionCommand::GetCookies,
        session::session_command("Storage.getCookies"@) == SessionCommand::GetCookies,
        session::session_command("Log.enable"@) == SessionCommand::Enable(Domain::Log),
        session::session_command("Console.enable"@) == SessionCommand::Enable(Domain::Console),
        session::session_command("DOM.enable"@) == SessionCommand::Enable(Domain::Dom),
        session::session_command("DOM.disable"@) == SessionCommand::Disable(Domain::Dom),
        session::session_command("DOM.getDocument"@) == SessionCommand::GetDocument,
        session::session_command("DOM.requestChildNodes"@) == SessionCommand::RequestChildNodes,
        session::session_command("DOM.getBoxModel"@) == SessionCommand::GetBoxModel,
        session::session_command("Console.getMessages"@) == SessionCommand::GetMessages,
        session::session_command("Performance.getMetrics"@) == SessionCommand::GetMetrics,
        session::session_command("Schema.getDomains"@) == SessionCommand::GetDomains,
        is_idle(method) ==> session::session_command(method) is Accept,
        is_refused(method) ==> session::session_command(method) is Unsupported,
        is_busy(method) || is_idle(method) || is_refused(method) ==> !text::begins_with(
            method,
            "Target."@,
        ),
        !is_busy(method) && !is_idle(method) && !is_refused(method)
            ==> session::session_command(method) is Unknown,
{
    reveal_strlit("Page.enable");
    reveal_strlit("Page.disable");
    reveal_strlit("Page.navigate");
    reveal_strlit("Page.reload");
    reveal_strlit("Page.goBack");
    reveal_strlit("Page.goForward");
    reveal_strlit("Page.getNavigationHistory");
    reveal_strlit("Page.getFrameTree");
    reveal_strlit("Page.getResourceTree");
    reveal_strlit("Page.bringToFront");
    reveal_strlit("Page.captureScreenshot");
    reveal_strlit("Runtime.enable");
    reveal_strlit("Runtime.disable");
    reveal_strlit("Runtime.evaluate");
    reveal_strlit("Runtime.runScript");
    reveal_strlit("Runtime.compileScript");
    reveal_strlit("Runtime.callFunctionOn");
    reveal_strlit("Network.enable");
    reveal_strlit("Network.disable");
    reveal_strlit("Network.getResponseBody");
    reveal_strlit("Network.getCookies");
    reveal_strlit("Storage.getCookies");
    reveal_strlit("Log.enable");
    reveal_strlit("Console.enable");
    reveal_strlit("DOM.enable");
    reveal_strlit("DOM.disable");
    reveal_strlit("DOM.getDocument");
    reveal_strlit("DOM.requestChildNodes");
    reveal_strlit("DOM.getBoxModel");
    reveal_strlit("Console.getMessages");
    reveal_strlit("Performance.getMetrics");
    reveal_strlit("Schema.getDomains");
    reveal_strlit("Emulation.setDeviceMetricsOverride");
    reveal_strlit("Emulation.clearDeviceMetricsOverride");
    reveal_strlit("Emulation.setUserAgentOverride");
    reveal_strlit("Emulation.setEmulatedMedia");
    reveal_strlit("Emulation.setTouchEmulationEnabled");
    reveal_strlit("Emulation.setScriptExecutionDisabled");
    reveal_strlit("Emulation.setScrollbarsHidden");
    reveal_strlit("Emulation.setCPUThrottlingRate");
    reveal_strlit("Emulation.setAutoDarkModeOverride");
    reveal_strlit("Emulation.setLocaleOverride");
    reveal_strlit("Emulation.setTimezoneOverride");
    reveal_strlit("Emulation.setVirtualTimePolicy");
    reveal_strlit("Emulation.setAutomationOverride");
    reveal_strlit("Page.setLifecycleEventsEnabled");
    reveal_strlit("Page.setBypassCSP");
    reveal_strlit("Page.setInterceptFileChooserDialog");
    reveal_strlit("Page.setAdBlockingEnabled");
    reveal_strlit("Page.setDownloadBehavior");
    reveal_strlit("Runtime.setAsyncCallStackDepth");
    reveal_strlit("Runtime.setMaxCallStackSizeToCapture");
    reveal_strlit("Network.setBypassServiceWorker");
    reveal_strlit("Network.setCacheDisabled");
    reveal_strlit("Network.setAttachDebugStack");
    reveal_strlit("Network.setUserAgentOverride");
    reveal_strlit("Network.setAcceptedEncodings");
    reveal_strlit("Network.clearAcceptedEncodingsOverride");
    reveal_strlit("Network.addInterception");
    reveal_strlit("Network.removeInterception");
    reveal_strlit("Network.continueInterceptedRequest");
    reveal_strlit("Log.startViolationsReport");
    reveal_strlit("Log.stopViolationsReport");
    reveal_strlit("DOM.setInspectedNode");
    reveal_strlit("DOM.discardSearchResults");
    reveal_strlit("Performance.setTime");
    reveal_strlit("Performance.setTimezone");
    reveal_strlit("Log.disable");
    reveal_strlit("Log.clear");
    reveal_strlit("Console.disable");
    reveal_strlit("Console.clearMessages");
    reveal_strlit("Performance.enable");
    reveal_strlit("Page.printToPDF");
    reveal_strlit("Page.startScreencast");
    reveal_strlit("Page.captureSnapshot");
    reveal_strlit("Network.setRequestInterception");
    reveal_strlit("DOM.resolveNode");
    reveal_strlit("DOM.getNodeForLocation");
    reveal_strlit("Target.");
    assert("Page.enable"@.len() == 11);
    assert("Page.disable"@.len() == 12);
    assert("Page.navigate"@.len() == 13);
    assert("Page.reload"@.len() == 11);
    assert("Page.goBack"@.len() == 11);
    assert("Page.goForward"@.len() == 14);
    assert("Page.getNavigationHistory"@.len() == 25);
    assert("Page.getFrameTree"@.len() == 17);
    assert("Page.getResourceTree"@.len() == 20);
    assert("Page.bringToFront"@.len() == 17);
    assert("Page.captureScreenshot"@.len() == 22);
    assert("Runtime.enable"@.len() == 14);
    assert("Runtime.disable"@.len() == 15);
    assert("Runtime.evaluate"@.len() == 16);
    assert("Runtime.runScript"@.len() == 17);
    assert("Runtime.compileScript"@.len() == 21);
    assert("Runtime.callFunctionOn"@.len() == 22);
    assert("Network.enable"@.len() == 14);
    assert("Network.disable"@.len() == 15);
    assert("Network.getResponseBody"@.len() == 23);
    assert("Network.getCookies"@.len() == 18);
    assert("Storage.getCookies"@.len() == 18);
    assert("Log.enable"@.len() == 10);
    assert("Console.enable"@.len() == 14);
    assert("DOM.enable"@.len() == 10);
    assert("DOM.disable"@.len() == 11);
    assert("DOM.getDocument"@.len() == 15);
    assert("DOM.requestChildNodes"@.len() == 21);
    assert("DOM.getBoxModel"@.len() == 15);
    assert("Console.getMessages"@.len() == 19);
    assert("Performance.getMetrics"@.len() == 22);
    assert("Schema.getDomains"@.len() == 17);
    assert("Emulation.setDeviceMetricsOverride"@.len() == 34);
    assert("Emulation.clearDeviceMetricsOverride"@.len() == 36);
    assert("Emulation.setUserAgentOverride"@.len() == 30);
    assert("Emulation.setEmulatedMedia"@.len() == 26);
    assert("Emulation.setTouchEmulationEnabled"@.len() == 34);
    assert("Emulation.setScriptExecutionDisabled"@.len() == 36);
    assert("Emulation.setScrollbarsHidden"@.len() == 29);
    assert("Emulation.setCPUThrottlingRate"@.len() == 30);
    assert("Emulation.setAutoDarkModeOverride"@.len() == 33);
    assert("Emulation.setLocaleOverride"@.len() == 27);
    assert("Emulation.setTimezoneOverride"@.len() == 29);
    assert("Emulation.setVirtualTimePolicy"@.len() == 30);
    assert("Emulation.setAutomationOverride"@.len() == 31);
    assert("Page.setLifecycleEventsEnabled"@.len() == 30);
    assert("Page.setBypassCSP"@.len() == 17);
    assert("Page.setInterceptFileChooserDialog"@.len() == 34);
    assert("Page.setAdBlockingEnabled"@.len() == 25);
    assert("Page.setDownloadBehavior"@.len() == 24);
    assert("Runtime.setAsyncCallStackDepth"@.len() == 30);
    assert("Runtime.setMaxCallStackSizeToCapture"@.len() == 36);
    assert("Network.setBypassServiceWorker"@.len() == 30);
    assert("Network.setCacheDisabled"@.len() == 24);
    assert("Network.setAttachDebugStack"@.len() == 27);
    assert("Network.setUserAgentOverride"@.len() == 28);
    assert("Network.setAcceptedEncodings"@.len() == 28);
    assert("Network.clearAcceptedEncodingsOverride"@.len() == 38);
    assert("Network.addInterception"@.len() == 23);
    assert("Network.removeInterception"@.len() == 26);
    assert("Network.continueInterceptedRequest"@.len() == 34);
    assert("Log.startViolationsReport"@.len() == 25);
    assert("Log.stopViolationsReport"@.len() == 24);
    assert("DOM.setInspectedNode"@.len() == 20);
    assert("DOM.discardSearchResults"@.len() == 24);
    assert("Performance.setTime"@.len() == 19);
    assert("Performance.setTimezone"@.len() == 23);
    assert("Log.disable"@.len() == 11);
    assert("Log.clear"@.len() == 9);
    assert("Console.disable"@.len() == 15);
    assert("Console.clearMessages"@.len() == 21);
    assert("Performance.enable"@.len() == 18);
    assert("Page.printToPDF"@.len() == 15);
    assert("Page.startScreencast"@.len() == 20);
    assert("Page.captureSnapshot"@.len() == 20);
    assert("Network.setRequestInterception"@.len() == 30);
    assert("DOM.resolveNode"@.len() == 15);
    assert("DOM.getNodeForLocation"@.len() == 22);
    assert("Target."@.len() == 7);
    assert("Log.enable"@[0] == 'L');
    assert("DOM.enable"@[0] == 'D');
    assert("Page.enable"@[5] == 'e' && "Page.enable"@[0] == 'P');
    assert("Page.reload"@[5] == 'r' && "Page.reload"@[0] == 'P');
    assert("Page.goBack"@[5] == 'g' && "Page.goBack"@[0] == 'P');
    assert("DOM.disable"@[5] == 'i' && "DOM.disable"@[0] == 'D');
    assert("Log.disable"@[5] == 'i' && "Log.disable"@[0] == 'L');
    assert("Page.goForward"@[0] == 'P');
    assert("Runtime.enable"@[0] == 'R');
    assert("Network.enable"@[0] == 'N');
    assert("Console.enable"@[0] == 'C');
    assert("Runtime.disable"@[4] == 'i' && "Runtime.disable"@[0] == 'R' && "Runtime.disable"@[7] == '.');
    assert("Network.disable"@[4] == 'o' && "Network.disable"@[0] == 'N' && "Network.disable"@[7] == '.');
    assert("DOM.getDocument"@[4] == 'g' && "DOM.getDocument"@[0] == 'D' && "DOM.getDocument"@[7] == 'D');
    assert("DOM.getBoxModel"@[4] == 'g' && "DOM.getBoxModel"@[0] == 'D' && "DOM.getBoxModel"@[7] == 'B');
    assert("Console.disable"@[4] == 'o' && "Console.disable"@[0] == 'C' && "Console.disable"@[7] == '.');
    assert("Page.printToPDF"@[4] == '.' && "Page.printToPDF"@[0] == 'P' && "Page.printToPDF"@[7] == 'i');
    assert("DOM.resolveNode"@[4] == 'r' && "DOM.resolveNode"@[0] == 'D' && "DOM.resolveNode"@[7] == 'o');
    assert("Page.getFrameTree"@[5] == 'g');
    assert("Page.bringToFront"@[5] == 'b');
    assert("Runtime.runScript"@[5] == 'm');
    assert("Schema.getDomains"@[5] == 'a');
    assert("Page.setBypassCSP"@[5] == 's');
    assert("Network.getCookies"@[0] == 'N');
    assert("Storage.getCookies"@[0] == 'S');
    assert("Performance.enable"@[0] == 'P');
    assert("Console.getMessages"@[0] == 'C');
    assert("Performance.setTime"@[0] == 'P');
    assert("Page.getResourceTree"@[5] == 'g');
    assert("DOM.setInspectedNode"@[5] == 'e');
    assert("Page.startScreencast"@[5] == 's');
    assert("Page.captureSnapshot"@[5] == 'c');
    assert("Runtime.compileScript"@[0] == 'R');
    assert("DOM.requestChildNodes"@[0] == 'D');
    assert("Console.clearMessages"@[0] == 'C');
    assert("Page.captureScreenshot"@[1] == 'a');
    assert("Runtime.callFunctionOn"@[1] == 'u');
    assert("Performance.getMetrics"@[1] == 'e');
    assert("DOM.getNodeForLocation"@[1] == 'O');
    assert("Network.getResponseBody"@[8] == 'g');
    assert("Network.addInterception"@[8] == 'a');
    assert("Performance.setTimezone"@[8] == 'n');
    assert("Page.setDownloadBehavior"@[0] == 'P');
    assert("Network.setCacheDisabled"@[0] == 'N');
    assert("Log.stopViolationsReport"@[0] == 'L');
    assert("DOM.discardSearchResults"@[0] == 'D');
    assert("Page.getNavigationHistory"@[5] == 'g');
    assert("Page.setAdBlockingEnabled"@[5] == 's');
    assert("Log.startViolationsReport"@[5] == 't');
    assert("Emulation.setEmulatedMedia"@[0] == 'E');
    assert("Network.removeInterception"@[0] == 'N');
    assert("Emulation.setLocaleOverride"@[0] == 'E');
    assert("Network.setAttachDebugStack"@[0] == 'N');
    assert("Network.setUserAgentOverride"@[11] == 'U');
    assert("Network.setAcceptedEncodings"@[11] == 'A');
    assert("Emulation.setScrollbarsHidden"@[13] == 'S');
    assert("Emulation.setTimezoneOverride"@[13] == 'T');
    assert("Emulation.setUserAgentOverride"@[14] == 's');
    assert("Emulation.setCPUThrottlingRate"@[14] == 'P');
    assert("Emulation.setVirtualTimePolicy"@[14] == 'i');
    assert("Page.setLifecycleEventsEnabled"@[14] == 'c');
    assert("Runtime.setAsyncCallStackDepth"@[14] == 'n');
    assert("Network.setBypassServiceWorker"@[14] == 'a');
    assert("Network.setRequestInterception"@[14] == 'u');
    assert("Emulation.setDeviceMetricsOverride"@[13] == 'D');
    assert("Emulation.setTouchEmulationEnabled"@[13] == 'T');
    assert("Page.setInterceptFileChooserDialog"@[13] == 'c');
    assert("Network.continueInterceptedRequest"@[13] == 'n');
    assert("Emulation.clearDeviceMetricsOverride"@[10] == 'c');
    assert("Emulation.setScriptExecutionDisabled"@[10] == 's');
    assert("Runtime.setMaxCallStackSizeToCapture"@[10] == 't');
    assert("Page.enable"@[0] == 'P');
    assert("Page.disable"@[0] == 'P');
    assert("Page.navigate"@[0] == 'P');
    assert("Page.reload"@[0] == 'P');
    assert("Page.goBack"@[0] == 'P');
    assert("Page.goForward"@[0] == 'P');
    assert("Page.getNavigationHistory"@[0] == 'P');
    assert("Page.getFrameTree"@[0] == 'P');
    assert("Page.getResourceTree"@[0] == 'P');
    assert("Page.bringToFront"@[0] == 'P');
    assert("Page.captureScreenshot"@[0] == 'P');
    assert("Runtime.enable"@[0] == 'R');
    assert("Runtime.disable"@[0] == 'R');
    assert("Runtime.evaluate"@[0] == 'R');
    assert("Runtime.runScript"@[0] == 'R');
    assert("Runtime.compileScript"@[0] == 'R');
    assert("Runtime.callFunctionOn"@[0] == 'R');
    assert("Network.enable"@[0] == 'N');
    assert("Network.disable"@[0] == 'N');
    assert("Network.getResponseBody"@[0] == 'N');
    assert("Network.getCookies"@[0] == 'N');
    assert("Storage.getCookies"@[0] == 'S');
    assert("Log.enable"@[0] == 'L');
    assert("Console.enable"@[0] == 'C');
    assert("DOM.enable"@[0] == 'D');
    assert("DOM.disable"@[0] == 'D');
    assert("DOM.getDocument"@[0] == 'D');
    assert("DOM.requestChildNodes"@[0] == 'D');
    assert("DOM.getBoxModel"@[0] == 'D');
    assert("Console.getMessages"@[0] == 'C');
    assert("Performance.getMetrics"@[0] == 'P');
    assert("Schema.getDomains"@[0] == 'S');
    assert("Emulation.setDeviceMetricsOverride"@[0] == 'E');
    assert("Emulation.clearDeviceMetricsOverride"@[0] == 'E');
    assert("Emulation.setUserAgentOverride"@[0] == 'E');
    assert("Emulation.setEmulatedMedia"@[0] == 'E');
    assert("Emulation.setTouchEmulationEnabled"@[0] == 'E');
    assert("Emulation.setScriptExecutionDisabled"@[0] == 'E');
    assert("Emulation.setScrollbarsHidden"@[0] == 'E');
    assert("Emulation.setCPUThrottlingRate"@[0] == 'E');
    assert("Emulation.setAutoDarkModeOverride"@[0] == 'E');
    assert("Emulation.setLocaleOverride"@[0] == 'E');
    assert("Emulation.setTimezoneOverride"@[0] == 'E');
    assert("Emulation.setVirtualTimePolicy"@[0] == 'E');
    assert("Emulation.setAutomationOverride"@[0] == 'E');
    assert("Page.setLifecycleEventsEnabled"@[0] == 'P');
    assert("Page.setBypassCSP"@[0] == 'P');
    assert("Page.setInterceptFileChooserDialog"@[0] == 'P');
    assert("Page.setAdBlockingEnabled"@[0] == 'P');
    assert("Page.setDownloadBehavior"@[0] == 'P');
    assert("Runtime.setAsyncCallStackDepth"@[0] == 'R');
    assert("Runtime.setMaxCallStackSizeToCapture"@[0] == 'R');
    assert("Network.setBypassServiceWorker"@[0] == 'N');
    assert("Network.setCacheDisabled"@[0] == 'N');
    assert("Network.setAttachDebugStack"@[0] == 'N');
    assert("Network.setUserAgentOverride"@[0] == 'N');
    assert("Network.setAcceptedEncodings"@[0] == 'N');
    assert("Network.clearAcceptedEncodingsOverride"@[0] == 'N');
    assert("Network.addInterception"@[0] == 'N');
    assert("Network.removeInterception"@[0] == 'N');
    assert("Network.continueInterceptedRequest"@[0] == 'N');
    assert("Log.startViolationsReport"@[0] == 'L');
    assert("Log.stopViolationsReport"@[0] == 'L');
    assert("DOM.setInspectedNode"@[0] == 'D');
    assert("DOM.discardSearchResults"@[0] == 'D');
    assert("Performance.setTime"@[0] == 'P');
    assert("Performance.setTimezone"@[0] == 'P');
    assert("Log.disable"@[0] == 'L');
    assert("Log.clear"@[0] == 'L');
    assert("Console.disable"@[0] == 'C');
    assert("Console.clearMessages"@[0] == 'C');
    assert("Performance.enable"@[0] == 'P');
    assert("Page.printToPDF"@[0] == 'P');
    assert("Page.startScreencast"@[0] == 'P');
    assert("Page.captureSnapshot"@[0] == 'P');
    assert("Network.setRequestInterception"@[0] == 'N');
    assert("DOM.resolveNode"@[0] == 'D');
    assert("DOM.getNodeForLocation"@[0] == 'D');
    assert("Target."@[0] == 'T');
    if text::begins_with(method, "Target."@) {
        assert(method.subrange(0, 7)[0] == 'T');
        assert(method[0] == 'T');
    }
}

/// The method is one of those of the browser.
pub open spec fn is_browser_method(method: Seq<char>) -> bool {
    ||| method == "Browser.getVersion"@
    ||| method == "Browser.close"@
    ||| method == "Browser.crash"@
    ||| method == "Browser.getWindowForTarget"@
    ||| method == "Browser.getProcessMetrics"@
    ||| method == "Target.getTargets"@
    ||| method == "Target.getTargetInfo"@
    ||| method == "Target.setDiscoverTargets"@
    ||| method == "Target.attachToTarget"@
    ||| method == "Target.setAutoAttach"@
    ||| method == "Target.detachFromTarget"@
    ||| method == "Target.createTarget"@
    ||| method == "Target.closeTarget"@
    ||| method == "Target.activateTarget"@
    ||| method == "Target.exposeDevToolsProtocol"@
}

/// Every method of the browser names its command; all other methods are unknown.
pub(crate) proof fn lemma_browser_methods(method: Seq<char>)
    ensures
        browser::browser_command("Browser.getVersion"@) == BrowserCommand::GetVersion,
        browser::browser_command("Browser.close"@) == BrowserCommand::Accept,
        browser::browser_command("Browser.crash"@) == BrowserCommand::Accept,
        browser::browser_command("Browser.getWindowForTarget"@) == BrowserCommand::GetWindowForTarget,
        browser::browser_command("Browser.getProcessMetrics"@) == BrowserCommand::GetProcessMetrics,
        browser::browser_command("Target.getTargets"@) == BrowserCommand::GetTargets,
        browser::browser_command("Target.getTargetInfo"@) == BrowserCommand::GetTargetInfo,
        browser::browser_command("Target.setDiscoverTargets"@) == BrowserCommand::SetDiscoverTargets,
        browser::browser_command("Target.attachToTarget"@) == BrowserCommand::AttachToTarget,
        browser::browser_command("Target.setAutoAttach"@) == BrowserCommand::SetAutoAttach,
        browser::browser_command("Target.detachFromTarget"@) == BrowserCommand::DetachFromTarget,
        browser::browser_command("Target.createTarget"@) == BrowserCommand::CreateTarget,
        browser::browser_command("Target.closeTarget"@) == BrowserCommand::CloseTarget,
        browser::browser_command("Target.activateTarget"@) == BrowserCommand::ActivateTarget,
        browser::browser_command("Target.exposeDevToolsProtocol"@) == BrowserCommand::Accept,
        !is_browser_method(method) ==> browser::browser_command(method) is Unknown,
{
    reveal_strlit("Browser.getVersion");
    reveal_strlit("Browser.close");
    reveal_strlit("Browser.crash");
    reveal_strlit("Browser.getWindowForTarget");
    reveal_strlit("Browser.getProcessMetrics");
    reveal_strlit("Target.getTargets");
    reveal_strlit("Target.getTargetInfo");
    reveal_strlit("Target.setDiscoverTargets");
    reveal_strlit("Target.attachToTarget");
    reveal_strlit("Target.setAutoAttach");
    reveal_strlit("Target.detachFromTarget");
    reveal_strlit("Target.createTarget");
    reveal_strlit("Target.closeTarget");
    reveal_strlit("Target.activateTarget");
    reveal_strlit("Target.exposeDevToolsProtocol");
    assert("Browser.getVersion"@.len() == 18);
    assert("Browser.close"@.len() == 13);
    assert("Browser.crash"@.len() == 13);
    assert("Browser.getWindowForTarget"@.len() == 26);
    assert("Browser.getProcessMetrics"@.len() == 25);
    assert("Target.getTargets"@.len() == 17);
    assert("Target.getTargetInfo"@.len() == 20);
    assert("Target.setDiscoverTargets"@.len() == 25);
    assert("Target.attachToTarget"@.len() == 21);
    assert("Target.setAutoAttach"@.len() == 20);
    assert("Target.detachFromTarget"@.len() == 23);
    assert("Target.createTarget"@.len() == 19);
    assert("Target.closeTarget"@.len() == 18);
    assert("Target.activateTarget"@.len() == 21);
    assert("Target.exposeDevToolsProtocol"@.len() == 29);
    assert("Browser.close"@[9] == 'l');
    assert("Browser.crash"@[9] == 'r');
    assert("Browser.getVersion"@[0] == 'B');
    assert("Target.closeTarget"@[0] == 'T');
    assert("Target.getTargetInfo"@[7] == 'g');
    assert("Target.setAutoAttach"@[7] == 's');
    assert("Target.attachToTarget"@[8] == 't');
    assert("Target.activateTarget"@[8] == 'c');
    assert("Browser.getProcessMetrics"@[0] == 'B');
    assert("Target.setDiscoverTargets"@[0] == 'T');
}

} // verus!
