//! Names and registration plans of GQY's tools: the readable names shown for
//! tool calls (in English or Chinese), and which tool modules each registry
//! registers for a given configuration.
use vstd::prelude::*;
use crate::provider::strings_view;
use crate::text::{
    chars_of, extend_chars, extend_str, has_prefix_str, join_with, slice_chars, split_char,
    split_on_char, starts_with, str_is, string_of, trim, trim_chars, trim_str,
};

verus! {

// ---------------------------------------------------------------- readable names

/// The readable name of a built-in tool.
pub open spec fn builtin_tool_name(name: Seq<char>, zh: bool) -> Option<Seq<char>> {
    if name == "run_command"@ {
        Some(if zh { "运行命令"@ } else { "Run command"@ })
    } else if name == "apply_patch"@ {
        Some(if zh { "应用补丁"@ } else { "Apply patch"@ })
    } else if name == "ask_question"@ {
        Some(if zh { "询问用户"@ } else { "Ask user"@ })
    } else if name == "task"@ {
        Some(if zh { "子代理"@ } else { "Subagent"@ })
    } else if name == "read_file"@ {
        Some(if zh { "读取文件"@ } else { "Read file"@ })
    } else if name == "write_file"@ {
        Some(if zh { "写入文件"@ } else { "Write file"@ })
    } else if name == "edit_file"@ {
        Some(if zh { "编辑文件"@ } else { "Edit file"@ })
    } else if name == "edit_string"@ {
        Some(if zh { "字符串编辑"@ } else { "Edit string"@ })
    } else if name == "list_directory"@ {
        Some(if zh { "列目录"@ } else { "List directory"@ })
    } else if name == "create_directory"@ {
        Some(if zh { "创建目录"@ } else { "Create directory"@ })
    } else if name == "trash_path"@ {
        Some(if zh { "移入回收站"@ } else { "Move to trash"@ })
    } else if name == "glob"@ {
        Some(if zh { "查找文件"@ } else { "Find files"@ })
    } else if name == "grep"@ {
        Some(if zh { "搜索文本"@ } else { "Search text"@ })
    } else if name == "get_current_directory"@ {
        Some(if zh { "当前目录"@ } else { "Current directory"@ })
    } else if name == "get_current_time"@ {
        Some(if zh { "当前时间"@ } else { "Current time"@ })
    } else if name == "check_issue"@ {
        Some(if zh { "检查问题"@ } else { "Check issue"@ })
    } else if name == "check_os_info"@ {
        Some(if zh { "查看系统信息"@ } else { "System information"@ })
    } else if name == "read_clipboard"@ {
        Some(if zh { "读取剪贴板"@ } else { "Read clipboard"@ })
    } else if name == "web_search"@ {
        Some(if zh { "网页搜索"@ } else { "Web search"@ })
    } else if name == "web_fetch"@ {
        Some(if zh { "读取网页"@ } else { "Fetch webpage"@ })
    } else if name == "search_web_images"@ {
        Some(if zh { "搜索图片"@ } else { "Search images"@ })
    } else if name == "analyze_image"@ || name == "vision_analyze"@ {
        Some(if zh { "分析图片"@ } else { "Analyze image"@ })
    } else if name == "print_image"@ {
        Some(if zh { "显示图片"@ } else { "Display image"@ })
    } else if name == "generate_image"@ {
        Some(if zh { "生成图片"@ } else { "Generate image"@ })
    } else if name == "search_meme"@ {
        Some(if zh { "搜索表情包"@ } else { "Search memes"@ })
    } else if name == "show_meme"@ {
        Some(if zh { "发送表情"@ } else { "Send meme"@ })
    } else if name == "add_meme"@ {
        Some(if zh { "添加表情包"@ } else { "Add meme"@ })
    } else if name == "update_meme"@ {
        Some(if zh { "更新表情包"@ } else { "Update meme"@ })
    } else if name == "delete_meme"@ {
        Some(if zh { "删除表情包"@ } else { "Delete meme"@ })
    } else if name == "deep_research"@ {
        Some(if zh { "深度研究"@ } else { "Deep research"@ })
    } else if name == "upload_knowledge_base_file"@ || name == "upload_text_to_knowledge_base"@ {
        Some(if zh { "导入知识库"@ } else { "Import knowledge base"@ })
    } else if name == "read_knowledge_base_file"@ {
        Some(if zh { "读取知识库"@ } else { "Read knowledge base"@ })
    } else if name == "search_knowledge_base"@ {
        Some(if zh { "搜索知识库"@ } else { "Search knowledge base"@ })
    } else if name == "search_knowledge_base_by_name"@ {
        Some(if zh { "按名称搜索知识库"@ } else { "Search knowledge base by name"@ })
    } else if name == "edit_knowledge_base_file"@ {
        Some(if zh { "编辑知识库"@ } else { "Edit knowledge base"@ })
    } else if name == "remove_knowledge_base_file"@ {
        Some(if zh { "移除知识库"@ } else { "Remove from knowledge base"@ })
    } else if name == "list_knowledge_base_files"@ {
        Some(if zh { "列出知识库"@ } else { "List knowledge base"@ })
    } else if name == "set_alarm"@ {
        Some(if zh { "设置闹钟"@ } else { "Set alarm"@ })
    } else if name == "list_alarms"@ {
        Some(if zh { "列出闹钟"@ } else { "List alarms"@ })
    } else if name == "cancel_alarm"@ {
        Some(if zh { "取消闹钟"@ } else { "Cancel alarm"@ })
    } else if name == "remember_fact"@ {
        Some(if zh { "记录记忆"@ } else { "Remember fact"@ })
    } else if name == "search_evicted_context"@ {
        Some(if zh { "搜索旧上下文"@ } else { "Search old context"@ })
    } else if name == "recall_past_events"@ {
        Some(if zh { "回忆往事"@ } else { "Recall past events"@ })
    } else if name == "recall_memory"@ || name == "recall_memories"@ {
        Some(if zh { "召回记忆"@ } else { "Recall memories"@ })
    } else if name == "forget_memory"@ || name == "forget_memories"@ {
        Some(if zh { "删除记忆"@ } else { "Forget memories"@ })
    } else if name == "list_memory"@ || name == "list_memories"@ {
        Some(if zh { "列出记忆"@ } else { "List memories"@ })
    } else if name == "query_deepseek_status"@ {
        Some(if zh { "查询 DeepSeek 状态"@ } else { "Check DeepSeek status"@ })
    } else if name == "online_man_search"@ || name == "man_search"@ {
        Some(if zh { "搜索在线手册"@ } else { "Search online manuals"@ })
    } else if name == "online_man_get_page"@ || name == "man_read"@ {
        Some(if zh { "读取在线手册"@ } else { "Read online manual"@ })
    } else if name == "moegirl_query"@ || name == "query_moegirl"@ {
        Some(if zh { "查询萌娘百科"@ } else { "Query Moegirlpedia"@ })
    } else if name == "calculate"@ || name == "calculator"@ || name == "scientific_calculator"@ {
        Some(if zh { "科学计算"@ } else { "Scientific calculation"@ })
    } else if name == "calculate_hash"@ {
        Some(if zh { "计算哈希"@ } else { "Calculate hash"@ })
    } else if name == "decode_encoded_text"@ {
        Some(if zh { "解码文本"@ } else { "Decode text"@ })
    } else if name == "exchange_rate"@ || name == "get_exchange_rate"@ {
        Some(if zh { "汇率查询"@ } else { "Exchange rates"@ })
    } else if name == "weather"@ || name == "get_weather"@ {
        Some(if zh { "天气查询"@ } else { "Weather"@ })
    } else if name == "xuanxue_pick"@ {
        Some(if zh { "玄学选择"@ } else { "Divination choice"@ })
    } else if name == "xuanxue_divine"@ {
        Some(if zh { "玄学占卜"@ } else { "Divination"@ })
    } else if name == "draw_zhouyi_hexagram"@ {
        Some(if zh { "周易起卦"@ } else { "Draw I Ching hexagram"@ })
    } else if name == "draw_tarot_card"@ {
        Some(if zh { "抽塔罗牌"@ } else { "Draw tarot card"@ })
    } else if name == "draw_fortune_lot"@ {
        Some(if zh { "吉凶占"@ } else { "Draw fortune"@ })
    } else if name == "roll_dice"@ {
        Some(if zh { "掷骰子"@ } else { "Roll dice"@ })
    } else if name == "load_skill"@ {
        Some(if zh { "加载技能"@ } else { "Load skill"@ })
    } else if name == "load_tools"@ {
        Some(if zh { "加载"@ } else { "Load"@ })
    } else if name == "register_script"@ {
        Some(if zh { "注册脚本"@ } else { "Register script"@ })
    } else if name == "unregister_script"@ {
        Some(if zh { "注销脚本"@ } else { "Unregister script"@ })
    } else if name == "todowrite"@ {
        Some(if zh { "任务列表"@ } else { "Todo list"@ })
    } else if name == "todoupdate"@ {
        Some(if zh { "更新任务"@ } else { "Update todos"@ })
    } else if name == "register_deep_research_topic_title"@ {
        Some(if zh { "注册研究标题"@ } else { "Register research title"@ })
    } else if name == "register_deep_research_reference"@ {
        Some(if zh { "注册引用来源"@ } else { "Register reference"@ })
    } else if name == "remove_deep_research_reference"@ {
        Some(if zh { "移除引用来源"@ } else { "Remove reference"@ })
    } else {
        None
    }
}

pub fn builtin_readable_tool_name(name: &str, zh: bool) -> (r: Option<&'static str>)
    ensures
        match r {
            Some(s) => builtin_tool_name(name@, zh) == Some(s@),
            None => builtin_tool_name(name@, zh) is None,
        },
{
    let v = chars_of(name);
    let n = v.as_slice();
    if str_is(n, "run_command") {
        return Some(if zh { "运行命令" } else { "Run command" });
    }
    if str_is(n, "apply_patch") {
        return Some(if zh { "应用补丁" } else { "Apply patch" });
    }
    if str_is(n, "ask_question") {
        return Some(if zh { "询问用户" } else { "Ask user" });
    }
    if str_is(n, "task") {
        return Some(if zh { "子代理" } else { "Subagent" });
    }
    if str_is(n, "read_file") {
        return Some(if zh { "读取文件" } else { "Read file" });
    }
    if str_is(n, "write_file") {
        return Some(if zh { "写入文件" } else { "Write file" });
    }
    if str_is(n, "edit_file") {
        return Some(if zh { "编辑文件" } else { "Edit file" });
    }
    if str_is(n, "edit_string") {
        return Some(if zh { "字符串编辑" } else { "Edit string" });
    }
    if str_is(n, "list_directory") {
        return Some(if zh { "列目录" } else { "List directory" });
    }
    if str_is(n, "create_directory") {
        return Some(if zh { "创建目录" } else { "Create directory" });
    }
    if str_is(n, "trash_path") {
        return Some(if zh { "移入回收站" } else { "Move to trash" });
    }
    if str_is(n, "glob") {
        return Some(if zh { "查找文件" } else { "Find files" });
    }
    if str_is(n, "grep") {
        return Some(if zh { "搜索文本" } else { "Search text" });
    }
    if str_is(n, "get_current_directory") {
        return Some(if zh { "当前目录" } else { "Current directory" });
    }
    if str_is(n, "get_current_time") {
        return Some(if zh { "当前时间" } else { "Current time" });
    }
    if str_is(n, "check_issue") {
        return Some(if zh { "检查问题" } else { "Check issue" });
    }
    if str_is(n, "check_os_info") {
        return Some(if zh { "查看系统信息" } else { "System information" });
    }
    if str_is(n, "read_clipboard") {
        return Some(if zh { "读取剪贴板" } else { "Read clipboard" });
    }
    if str_is(n, "web_search") {
        return Some(if zh { "网页搜索" } else { "Web search" });
    }
    if str_is(n, "web_fetch") {
        return Some(if zh { "读取网页" } else { "Fetch webpage" });
    }
    if str_is(n, "search_web_images") {
        return Some(if zh { "搜索图片" } else { "Search images" });
    }
    if str_is(n, "analyze_image") || str_is(n, "vision_analyze") {
        return Some(if zh { "分析图片" } else { "Analyze image" });
    }
    if str_is(n, "print_image") {
        return Some(if zh { "显示图片" } else { "Display image" });
    }
    if str_is(n, "generate_image") {
        return Some(if zh { "生成图片" } else { "Generate image" });
    }
    if str_is(n, "search_meme") {
        return Some(if zh { "搜索表情包" } else { "Search memes" });
    }
    if str_is(n, "show_meme") {
        return Some(if zh { "发送表情" } else { "Send meme" });
    }
    if str_is(n, "add_meme") {
        return Some(if zh { "添加表情包" } else { "Add meme" });
    }
    if str_is(n, "update_meme") {
        return Some(if zh { "更新表情包" } else { "Update meme" });
    }
    if str_is(n, "delete_meme") {
        return Some(if zh { "删除表情包" } else { "Delete meme" });
    }
    if str_is(n, "deep_research") {
        return Some(if zh { "深度研究" } else { "Deep research" });
    }
    if str_is(n, "upload_knowledge_base_file") || str_is(n, "upload_text_to_knowledge_base") {
        return Some(if zh { "导入知识库" } else { "Import knowledge base" });
    }
    if str_is(n, "read_knowledge_base_file") {
        return Some(if zh { "读取知识库" } else { "Read knowledge base" });
    }
    if str_is(n, "search_knowledge_base") {
        return Some(if zh { "搜索知识库" } else { "Search knowledge base" });
    }
    if str_is(n, "search_knowledge_base_by_name") {
        return Some(if zh { "按名称搜索知识库" } else { "Search knowledge base by name" });
    }
    if str_is(n, "edit_knowledge_base_file") {
        return Some(if zh { "编辑知识库" } else { "Edit knowledge base" });
    }
    if str_is(n, "remove_knowledge_base_file") {
        return Some(if zh { "移除知识库" } else { "Remove from knowledge base" });
    }
    if str_is(n, "list_knowledge_base_files") {
        return Some(if zh { "列出知识库" } else { "List knowledge base" });
    }
    if str_is(n, "set_alarm") {
        return Some(if zh { "设置闹钟" } else { "Set alarm" });
    }
    if str_is(n, "list_alarms") {
        return Some(if zh { "列出闹钟" } else { "List alarms" });
    }
    if str_is(n, "cancel_alarm") {
        return Some(if zh { "取消闹钟" } else { "Cancel alarm" });
    }
    if str_is(n, "remember_fact") {
        return Some(if zh { "记录记忆" } else { "Remember fact" });
    }
    if str_is(n, "search_evicted_context") {
        return Some(if zh { "搜索旧上下文" } else { "Search old context" });
    }
    if str_is(n, "recall_past_events") {
        return Some(if zh { "回忆往事" } else { "Recall past events" });
    }
    if str_is(n, "recall_memory") || str_is(n, "recall_memories") {
        return Some(if zh { "召回记忆" } else { "Recall memories" });
    }
    if str_is(n, "forget_memory") || str_is(n, "forget_memories") {
        return Some(if zh { "删除记忆" } else { "Forget memories" });
    }
    if str_is(n, "list_memory") || str_is(n, "list_memories") {
        return Some(if zh { "列出记忆" } else { "List memories" });
    }
    if str_is(n, "query_deepseek_status") {
        return Some(if zh { "查询 DeepSeek 状态" } else { "Check DeepSeek status" });
    }
    if str_is(n, "online_man_search") || str_is(n, "man_search") {
        return Some(if zh { "搜索在线手册" } else { "Search online manuals" });
    }
    if str_is(n, "online_man_get_page") || str_is(n, "man_read") {
        return Some(if zh { "读取在线手册" } else { "Read online manual" });
    }
    if str_is(n, "moegirl_query") || str_is(n, "query_moegirl") {
        return Some(if zh { "查询萌娘百科" } else { "Query Moegirlpedia" });
    }
    if str_is(n, "calculate") || str_is(n, "calculator") || str_is(n, "scientific_calculator") {
        return Some(if zh { "科学计算" } else { "Scientific calculation" });
    }
    if str_is(n, "calculate_hash") {
        return Some(if zh { "计算哈希" } else { "Calculate hash" });
    }
    if str_is(n, "decode_encoded_text") {
        return Some(if zh { "解码文本" } else { "Decode text" });
    }
    if str_is(n, "exchange_rate") || str_is(n, "get_exchange_rate") {
        return Some(if zh { "汇率查询" } else { "Exchange rates" });
    }
    if str_is(n, "weather") || str_is(n, "get_weather") {
        return Some(if zh { "天气查询" } else { "Weather" });
    }
    if str_is(n, "xuanxue_pick") {
        return Some(if zh { "玄学选择" } else { "Divination choice" });
    }
    if str_is(n, "xuanxue_divine") {
        return Some(if zh { "玄学占卜" } else { "Divination" });
    }
    if str_is(n, "draw_zhouyi_hexagram") {
        return Some(if zh { "周易起卦" } else { "Draw I Ching hexagram" });
    }
    if str_is(n, "draw_tarot_card") {
        return Some(if zh { "抽塔罗牌" } else { "Draw tarot card" });
    }
    if str_is(n, "draw_fortune_lot") {
        return Some(if zh { "吉凶占" } else { "Draw fortune" });
    }
    if str_is(n, "roll_dice") {
        return Some(if zh { "掷骰子" } else { "Roll dice" });
    }
    if str_is(n, "load_skill") {
        return Some(if zh { "加载技能" } else { "Load skill" });
    }
    if str_is(n, "load_tools") {
        return Some(if zh { "加载" } else { "Load" });
    }
    if str_is(n, "register_script") {
        return Some(if zh { "注册脚本" } else { "Register script" });
    }
    if str_is(n, "unregister_script") {
        return Some(if zh { "注销脚本" } else { "Unregister script" });
    }
    if str_is(n, "todowrite") {
        return Some(if zh { "任务列表" } else { "Todo list" });
    }
    if str_is(n, "todoupdate") {
        return Some(if zh { "更新任务" } else { "Update todos" });
    }
    if str_is(n, "register_deep_research_topic_title") {
        return Some(if zh { "注册研究标题" } else { "Register research title" });
    }
    if str_is(n, "register_deep_research_reference") {
        return Some(if zh { "注册引用来源" } else { "Register reference" });
    }
    if str_is(n, "remove_deep_research_reference") {
        return Some(if zh { "移除引用来源" } else { "Remove reference" });
    }
    None
}

/// The readable name of a tool group.
pub open spec fn builtin_group_name(name: Seq<char>, zh: bool) -> Option<Seq<char>> {
    if name == "acg"@ {
        Some(if zh { "ACG 工具组"@ } else { "ACG tools"@ })
    } else if name == "agent"@ {
        Some(if zh { "子代理工具组"@ } else { "Subagent tools"@ })
    } else if name == "alarms"@ {
        Some(if zh { "闹钟工具组"@ } else { "Alarm tools"@ })
    } else if name == "dev"@ {
        Some(if zh { "开发修改工具组"@ } else { "Development tools"@ })
    } else if name == "dev-read"@ {
        Some(if zh { "代码检索工具组"@ } else { "Code search tools"@ })
    } else if name == "diagnostics"@ {
        Some(if zh { "诊断工具组"@ } else { "Diagnostic tools"@ })
    } else if name == "divination"@ {
        Some(if zh { "玄学工具组"@ } else { "Divination tools"@ })
    } else if name == "images"@ {
        Some(if zh { "图片工具组"@ } else { "Image tools"@ })
    } else if name == "knowledge"@ {
        Some(if zh { "知识库工具组"@ } else { "Knowledge base tools"@ })
    } else if name == "knowledge-admin"@ {
        Some(if zh { "知识库管理工具组"@ } else { "Knowledge base management"@ })
    } else if name == "linux-docs"@ {
        Some(if zh { "Linux 文档工具组"@ } else { "Linux documentation"@ })
    } else if name == "memory"@ {
        Some(if zh { "记忆工具组"@ } else { "Memory tools"@ })
    } else if name == "memes"@ {
        Some(if zh { "表情包工具组"@ } else { "Meme tools"@ })
    } else if name == "planning"@ {
        Some(if zh { "任务规划工具组"@ } else { "Planning tools"@ })
    } else if name == "research"@ {
        Some(if zh { "深度研究工具组"@ } else { "Research tools"@ })
    } else if name == "scripts"@ {
        Some(if zh { "脚本工具组"@ } else { "Script tools"@ })
    } else if name == "scripting"@ {
        Some(if zh { "脚本管理工具组"@ } else { "Script management"@ })
    } else if name == "shell"@ {
        Some(if zh { "Shell 工具组"@ } else { "Shell tools"@ })
    } else if name == "skills"@ {
        Some(if zh { "技能工具组"@ } else { "Skill tools"@ })
    } else if name == "systeminfo"@ {
        Some(if zh { "系统信息工具组"@ } else { "System information"@ })
    } else if name == "utility"@ {
        Some(if zh { "实用工具组"@ } else { "Utility tools"@ })
    } else if name == "web"@ {
        Some(if zh { "联网工具组"@ } else { "Web tools"@ })
    } else {
        None
    }
}

pub fn builtin_readable_group_name(name: &str, zh: bool) -> (r: Option<&'static str>)
    ensures
        match r {
            Some(s) => builtin_group_name(name@, zh) == Some(s@),
            None => builtin_group_name(name@, zh) is None,
        },
{
    let v = chars_of(name);
    let n = v.as_slice();
    if str_is(n, "acg") {
        return Some(if zh { "ACG 工具组" } else { "ACG tools" });
    }
    if str_is(n, "agent") {
        return Some(if zh { "子代理工具组" } else { "Subagent tools" });
    }
    if str_is(n, "alarms") {
        return Some(if zh { "闹钟工具组" } else { "Alarm tools" });
    }
    if str_is(n, "dev") {
        return Some(if zh { "开发修改工具组" } else { "Development tools" });
    }
    if str_is(n, "dev-read") {
        return Some(if zh { "代码检索工具组" } else { "Code search tools" });
    }
    if str_is(n, "diagnostics") {
        return Some(if zh { "诊断工具组" } else { "Diagnostic tools" });
    }
    if str_is(n, "divination") {
        return Some(if zh { "玄学工具组" } else { "Divination tools" });
    }
    if str_is(n, "images") {
        return Some(if zh { "图片工具组" } else { "Image tools" });
    }
    if str_is(n, "knowledge") {
        return Some(if zh { "知识库工具组" } else { "Knowledge base tools" });
    }
    if str_is(n, "knowledge-admin") {
        return Some(if zh { "知识库管理工具组" } else { "Knowledge base management" });
    }
    if str_is(n, "linux-docs") {
        return Some(if zh { "Linux 文档工具组" } else { "Linux documentation" });
    }
    if str_is(n, "memory") {
        return Some(if zh { "记忆工具组" } else { "Memory tools" });
    }
    if str_is(n, "memes") {
        return Some(if zh { "表情包工具组" } else { "Meme tools" });
    }
    if str_is(n, "planning") {
        return Some(if zh { "任务规划工具组" } else { "Planning tools" });
    }
    if str_is(n, "research") {
        return Some(if zh { "深度研究工具组" } else { "Research tools" });
    }
    if str_is(n, "scripts") {
        return Some(if zh { "脚本工具组" } else { "Script tools" });
    }
    if str_is(n, "scripting") {
        return Some(if zh { "脚本管理工具组" } else { "Script management" });
    }
    if str_is(n, "shell") {
        return Some(if zh { "Shell 工具组" } else { "Shell tools" });
    }
    if str_is(n, "skills") {
        return Some(if zh { "技能工具组" } else { "Skill tools" });
    }
    if str_is(n, "systeminfo") {
        return Some(if zh { "系统信息工具组" } else { "System information" });
    }
    if str_is(n, "utility") {
        return Some(if zh { "实用工具组" } else { "Utility tools" });
    }
    if str_is(n, "web") {
        return Some(if zh { "联网工具组" } else { "Web tools" });
    }
    None
}

/// The trimmed, non-blank pieces of a comma-separated list.
pub open spec fn nonblank_trimmed(pieces: Seq<Seq<char>>) -> Seq<Seq<char>>
    decreases pieces.len(),
{
    if pieces.len() == 0 {
        seq![]
    } else {
        let r = nonblank_trimmed(pieces.drop_last());
        let t = trim(pieces.last());
        if t.len() > 0 {
            r.push(t)
        } else {
            r
        }
    }
}

/// The display name a script tool registered, the first entry for the name.
pub open spec fn script_name(scripts: Seq<(Seq<char>, Seq<char>)>, name: Seq<char>) -> Option<Seq<char>>
    decreases scripts.len(),
{
    if scripts.len() == 0 {
        None
    } else if scripts[0].0 == name {
        Some(scripts[0].1)
    } else {
        script_name(scripts.drop_first(), name)
    }
}

pub open spec fn scripts_view(scripts: Seq<(String, String)>) -> Seq<(Seq<char>, Seq<char>)> {
    scripts.map_values(|e: (String, String)| (e.0@, e.1@))
}

/// How one target of `load_tools:` reads: a group by its group name (or as
/// `group:<name>` when unknown), anything else as a tool name.
pub open spec fn target_name(
    t: Seq<char>,
    zh: bool,
    scripts: Seq<(Seq<char>, Seq<char>)>,
    fuel: nat,
) -> Seq<char>
    decreases fuel, 0nat, 0nat,
{
    if starts_with(t, "group:"@) {
        let g = t.skip("group:"@.len() as int);
        match builtin_group_name(g, zh) {
            Some(n) => n,
            None => "group:"@ + g,
        }
    } else if fuel == 0 {
        t
    } else {
        readable_name_fuel(t, zh, scripts, (fuel - 1) as nat)
    }
}

/// How each target of a `load_tools:` list reads.
pub open spec fn shown_targets(
    ts: Seq<Seq<char>>,
    zh: bool,
    scripts: Seq<(Seq<char>, Seq<char>)>,
    fuel: nat,
) -> Seq<Seq<char>>
    decreases fuel, 0nat, ts.len(),
{
    if ts.len() == 0 {
        seq![]
    } else {
        shown_targets(ts.drop_last(), zh, scripts, fuel).push(target_name(ts.last(), zh, scripts, fuel))
    }
}

/// The readable name of a tool call: `load_skill:<skill>` and
/// `load_tools:<a>,<b>` spelled out, built-in tools by their readable name,
/// script tools by the display name they registered, anything else as is.
/// `fuel` bounds how deeply `load_tools:` lists nest; a name's length always
/// suffices.
pub open spec fn readable_name_fuel(
    name: Seq<char>,
    zh: bool,
    scripts: Seq<(Seq<char>, Seq<char>)>,
    fuel: nat,
) -> Seq<char>
    decreases fuel, 1nat, 0nat,
{
    if starts_with(name, "load_skill:"@) {
        let skill = name.skip("load_skill:"@.len() as int);
        if zh {
            "加载技能："@ + skill
        } else {
            "Load skill: "@ + skill
        }
    } else if starts_with(name, "load_tools:"@) {
        let targets = nonblank_trimmed(split_char(name.skip("load_tools:"@.len() as int), ','));
        let display = join_with(
            shown_targets(targets, zh, scripts, fuel),
            if zh { "、"@ } else { ", "@ },
        );
        if zh {
            "加载："@ + display
        } else {
            "Load: "@ + display
        }
    } else if builtin_tool_name(name, zh) is Some {
        builtin_tool_name(name, zh)->0
    } else if script_name(scripts, name) is Some {
        script_name(scripts, name)->0
    } else {
        name
    }
}

pub open spec fn readable_name(name: Seq<char>, zh: bool, scripts: Seq<(Seq<char>, Seq<char>)>) -> Seq<char> {
    readable_name_fuel(name, zh, scripts, name.len())
}

/// A tool name that loads nothing reads as its built-in readable name when it
/// has one (a display name a script registered under the same name does not
/// override it), else as the display name registered for it, else as itself.
pub proof fn lemma_readable_name_order(name: Seq<char>, zh: bool, scripts: Seq<(Seq<char>, Seq<char>)>)
    requires
        !starts_with(name, "load_skill:"@),
        !starts_with(name, "load_tools:"@),
    ensures
        readable_name(name, zh, scripts) == match builtin_tool_name(name, zh) {
            Some(b) => b,
            None => match script_name(scripts, name) {
                Some(d) => d,
                None => name,
            },
        },
{
    reveal_with_fuel(readable_name_fuel, 1);
}

fn find_script_name<'a>(scripts: &'a [(String, String)], name: &[char]) -> (r: Option<&'a String>)
    ensures
        match r {
            Some(s) => script_name(scripts_view(scripts@), name@) == Some(s@),
            None => script_name(scripts_view(scripts@), name@) is None,
        },
{
    let mut i: usize = 0;
    assert(scripts_view(scripts@).skip(0) =~= scripts_view(scripts@));
    while i < scripts.len()
        invariant
            i <= scripts.len(),
            script_name(scripts_view(scripts@), name@) == script_name(
                scripts_view(scripts@).skip(i as int),
                name@,
            ),
        decreases scripts.len() - i,
    {
        let k = chars_of(scripts[i].0.as_str());
        proof {
            let rest = scripts_view(scripts@).skip(i as int);
            assert(rest[0] == (scripts@[i as int].0@, scripts@[i as int].1@));
            assert(rest.drop_first() =~= scripts_view(scripts@).skip(i + 1));
        }
        if crate::text::seq_eq(k.as_slice(), name) {
            return Some(&scripts[i].1);
        }
        i += 1;
    }
    None
}

fn target_name_exec(t: &[char], zh: bool, scripts: &[(String, String)], fuel: usize) -> (r: Vec<char>)
    ensures
        r@ == target_name(t@, zh, scripts_view(scripts@), fuel as nat),
    decreases fuel, 0nat, 0nat,
{
    if has_prefix_str(t, "group:") {
        proof {
            reveal_strlit("group:");
        }
        let g = slice_chars(t, 6, t.len());
        let gs = string_of(g.as_slice());
        match builtin_readable_group_name(gs.as_str(), zh) {
            Some(n) => chars_of(n),
            None => {
                let mut out = chars_of("group:");
                extend_chars(&mut out, g.as_slice());
                out
            },
        }
    } else if fuel == 0 {
        slice_chars(t, 0, t.len())
    } else {
        let ts = string_of(t);
        let r = readable_name_with(ts.as_str(), zh, scripts, fuel - 1);
        chars_of(r.as_str())
    }
}

fn readable_name_with(name: &str, zh: bool, scripts: &[(String, String)], fuel: usize) -> (r: String)
    ensures
        r@ == readable_name_fuel(name@, zh, scripts_view(scripts@), fuel as nat),
    decreases fuel, 1nat, 0nat,
{
    let n = chars_of(name);
    if has_prefix_str(n.as_slice(), "load_skill:") {
        proof {
            reveal_strlit("load_skill:");
        }
        let skill = slice_chars(n.as_slice(), 11, n.len());
        let mut out = if zh {
            chars_of("加载技能：")
        } else {
            chars_of("Load skill: ")
        };
        extend_chars(&mut out, skill.as_slice());
        return string_of(out.as_slice());
    }
    if has_prefix_str(n.as_slice(), "load_tools:") {
        proof {
            reveal_strlit("load_tools:");
        }
        let rest = slice_chars(n.as_slice(), 11, n.len());
        assert(rest@ =~= name@.skip(11));
        let pieces = split_on_char(rest.as_slice(), ',');
        let ghost ps = split_char(rest@, ',');
        let ghost sv = scripts_view(scripts@);
        let sep = if zh {
            "、"
        } else {
            ", "
        };
        let mut display: Vec<char> = Vec::new();
        let mut count: usize = 0;
        let mut i: usize = 0;
        while i < pieces.len()
            invariant
                i <= pieces.len(),
                count <= i,
                pieces@.len() == ps.len(),
                forall|k: int| 0 <= k < pieces@.len() ==> #[trigger] pieces@[k]@ == ps[k],
                sv == scripts_view(scripts@),
                sep@ == (if zh { "、"@ } else { ", "@ }),
                count == nonblank_trimmed(ps.take(i as int)).len(),
                display@ == join_with(
                    shown_targets(nonblank_trimmed(ps.take(i as int)), zh, sv, fuel as nat),
                    sep@,
                ),
            decreases pieces.len() - i,
        {
            let t = trim_chars(pieces[i].as_slice());
            let ghost before = nonblank_trimmed(ps.take(i as int));
            proof {
                assert(ps.take(i + 1).drop_last() =~= ps.take(i as int));
                assert(ps.take(i + 1).last() == pieces@[i as int]@);
            }
            if t.len() > 0 {
                let piece = target_name_exec(t.as_slice(), zh, scripts, fuel);
                if count > 0 {
                    extend_str(&mut display, sep);
                }
                extend_chars(&mut display, piece.as_slice());
                proof {
                    let after = before.push(t@);
                    assert(after.drop_last() =~= before);
                    assert(shown_targets(after, zh, sv, fuel as nat).drop_last() =~= shown_targets(before, zh, sv, fuel as nat));
                }
                count += 1;
            }
            i += 1;
        }
        proof {
            assert(ps.take(pieces.len() as int) =~= ps);
        }
        let mut out = if zh {
            chars_of("加载：")
        } else {
            chars_of("Load: ")
        };
        extend_chars(&mut out, display.as_slice());
        return string_of(out.as_slice());
    }
    match builtin_readable_tool_name(name, zh) {
        Some(s) => { return s.to_string(); },
        None => {},
    }
    match find_script_name(scripts, n.as_slice()) {
        Some(s) => { return s.clone(); },
        None => {},
    }
    name.to_string()
}

/// The readable name of a tool call, in Chinese when `zh`, with the display
/// names that script tools registered.
pub fn readable_tool_name(name: &str, zh: bool, scripts: &[(String, String)]) -> (r: String)
    ensures
        r@ == readable_name(name@, zh, scripts_view(scripts@)),
{
    let n = chars_of(name);
    readable_name_with(name, zh, scripts, n.len())
}

/// The display names that registered tools carry, by tool name.
pub open spec fn display_names_of(entries: Seq<(Seq<char>, Option<Seq<char>>)>) -> Seq<(Seq<char>, Seq<char>)>
    decreases entries.len(),
{
    if entries.len() == 0 {
        seq![]
    } else {
        let r = display_names_of(entries.drop_last());
        match entries.last().1 {
            Some(d) => r.push((entries.last().0, d)),
            None => r,
        }
    }
}

pub open spec fn entries_view(entries: Seq<(String, Option<String>)>) -> Seq<(Seq<char>, Option<Seq<char>>)> {
    entries.map_values(|e: (String, Option<String>)| (e.0@, crate::provider::opt_string_view(e.1)))
}

/// The table `readable_tool_name` consults for script tools: every registered
/// tool that has a display name, with that name.
pub fn register_script_display_names(entries: &[(String, Option<String>)]) -> (r: Vec<(String, String)>)
    ensures
        scripts_view(r@) == display_names_of(entries_view(entries@)),
{
    let mut out: Vec<(String, String)> = Vec::new();
    let mut i: usize = 0;
    while i < entries.len()
        invariant
            i <= entries.len(),
            scripts_view(out@) == display_names_of(entries_view(entries@.take(i as int))),
        decreases entries.len() - i,
    {
        proof {
            assert(entries_view(entries@.take(i + 1)).drop_last() =~= entries_view(
                entries@.take(i as int),
            ));
        }
        match &entries[i].1 {
            Some(d) => {
                let ghost before = scripts_view(out@);
                out.push((entries[i].0.clone(), d.clone()));
                assert(scripts_view(out@) =~= before.push((entries@[i as int].0@, d@)));
            },
            None => {},
        }
        i += 1;
    }
    assert(entries@.take(entries.len() as int) =~= entries@);
    out
}

/// `hybrid` and `lazy` (trimmed) load tools on demand.
pub fn is_hybrid_loading_mode(mode: &str) -> (r: bool)
    ensures
        r == (trim(mode@) == "hybrid"@ || trim(mode@) == "lazy"@),
{
    let t = trim_str(mode);
    str_is(t.as_slice(), "hybrid") || str_is(t.as_slice(), "lazy")
}


// ---------------------------------------------------------------- registries

/// The configuration switches that decide which tool modules a registry holds.
#[derive(Debug, Clone)]
pub struct RegistryConfig {
    pub man: bool,
    pub memes: bool,
    pub web: bool,
    pub web_images: bool,
    pub deep_research: bool,
    pub vision: bool,
    pub image_generation: bool,
    pub knowledge_base: bool,
    pub diagnostics: bool,
    pub memory: bool,
    pub mcp: bool,
    pub loading_mode: String,
    pub chat_pure_text: bool,
}

/// A tool module, registered in the order a registry lists them. The flag some
/// modules carry is the one the registry passes to the module's registration.
#[derive(Debug, Clone, Copy, PartialEq, Eq, Structural)]
pub enum ToolModule {
    DefaultTools(bool),
    DefaultToolsReadonly,
    ApplyPatch,
    Write,
    EditReplace,
    TodoWrite,
    Alarm,
    Clipboard,
    WebFetch,
    Weather,
    ExchangeRate,
    Xuanxue,
    Man,
    Moegirl,
    HashCodec,
    Calculator,
    DeepseekStatus,
    VisionPrint,
    Memes,
    MemesChat,
    Web,
    WebImages(bool),
    DeepResearch,
    Vision(bool),
    LocalVision,
    Speech,
    ImageGeneration,
    KnowledgeBase,
    KnowledgeBaseReadonly,
    Diagnostics,
    Memory,
    MemoryReadonly,
    Task,
    Scripts,
    Agents,
    Mcp,
    LoadTools,
    AskQuestion,
}

pub open spec fn when(on: bool, m: ToolModule) -> Seq<ToolModule> {
    if on {
        seq![m]
    } else {
        seq![]
    }
}

pub open spec fn hybrid_mode(mode: Seq<char>) -> bool {
    trim(mode) == "hybrid"@ || trim(mode) == "lazy"@
}

fn push_when(v: &mut Vec<ToolModule>, on: bool, m: ToolModule)
    ensures
        final(v)@ == old(v)@ + when(on, m),
{
    if on {
        v.push(m);
    }
    assert(final(v)@ =~= old(v)@ + when(on, m));
}

/// The modules of the full agent registry: the always-on tools, each plugin
/// that is switched on, local vision and speech, sub-agent tasks, scripts,
/// agent teams, MCP when on, and on-demand loading in hybrid mode.
pub open spec fn builtin_plan(c: RegistryConfig) -> Seq<ToolModule> {
    seq![
        ToolModule::DefaultTools(true),
        ToolModule::ApplyPatch,
        ToolModule::Write,
        ToolModule::EditReplace,
        ToolModule::TodoWrite,
        ToolModule::Alarm,
        ToolModule::Clipboard,
        ToolModule::WebFetch,
        ToolModule::Weather,
        ToolModule::ExchangeRate,
        ToolModule::Xuanxue,
    ] + when(c.man, ToolModule::Man) + seq![
        ToolModule::Moegirl,
        ToolModule::HashCodec,
        ToolModule::Calculator,
        ToolModule::DeepseekStatus,
        ToolModule::VisionPrint,
    ] + when(c.memes, ToolModule::Memes) + when(c.web, ToolModule::Web) + when(
        c.web_images,
        ToolModule::WebImages(true),
    ) + when(c.deep_research, ToolModule::DeepResearch) + when(c.vision, ToolModule::Vision(true))
        + seq![ToolModule::LocalVision, ToolModule::Speech] + when(
        c.image_generation,
        ToolModule::ImageGeneration,
    ) + when(c.knowledge_base, ToolModule::KnowledgeBase) + when(
        c.diagnostics,
        ToolModule::Diagnostics,
    ) + when(c.memory, ToolModule::Memory) + seq![
        ToolModule::Task,
        ToolModule::Scripts,
        ToolModule::Agents,
    ] + when(c.mcp, ToolModule::Mcp) + when(hybrid_mode(c.loading_mode@), ToolModule::LoadTools)
}

#[verifier::spinoff_prover]
#[verifier::rlimit(50)]
pub fn builtin_registry(c: &RegistryConfig) -> (r: Vec<ToolModule>)
    ensures
        r@ == builtin_plan(*c),
{
    let mut v: Vec<ToolModule> = Vec::new();
    v.push(ToolModule::DefaultTools(true));
    v.push(ToolModule::ApplyPatch);
    v.push(ToolModule::Write);
    v.push(ToolModule::EditReplace);
    v.push(ToolModule::TodoWrite);
    v.push(ToolModule::Alarm);
    v.push(ToolModule::Clipboard);
    v.push(ToolModule::WebFetch);
    v.push(ToolModule::Weather);
    v.push(ToolModule::ExchangeRate);
    v.push(ToolModule::Xuanxue);
    let ghost p1 = v@;
    push_when(&mut v, c.man, ToolModule::Man);
    let ghost p2 = v@;
    v.push(ToolModule::Moegirl);
    v.push(ToolModule::HashCodec);
    v.push(ToolModule::Calculator);
    v.push(ToolModule::DeepseekStatus);
    v.push(ToolModule::VisionPrint);
    let ghost p3 = v@;
    push_when(&mut v, c.memes, ToolModule::Memes);
    push_when(&mut v, c.web, ToolModule::Web);
    push_when(&mut v, c.web_images, ToolModule::WebImages(true));
    push_when(&mut v, c.deep_research, ToolModule::DeepResearch);
    push_when(&mut v, c.vision, ToolModule::Vision(true));
    let ghost p4 = v@;
    v.push(ToolModule::LocalVision);
    v.push(ToolModule::Speech);
    let ghost p5 = v@;
    push_when(&mut v, c.image_generation, ToolModule::ImageGeneration);
    push_when(&mut v, c.knowledge_base, ToolModule::KnowledgeBase);
    push_when(&mut v, c.diagnostics, ToolModule::Diagnostics);
    push_when(&mut v, c.memory, ToolModule::Memory);
    let ghost p6 = v@;
    v.push(ToolModule::Task);
    v.push(ToolModule::Scripts);
    v.push(ToolModule::Agents);
    let ghost p7 = v@;
    push_when(&mut v, c.mcp, ToolModule::Mcp);
    let hybrid = is_hybrid_loading_mode(c.loading_mode.as_str());
    push_when(&mut v, hybrid, ToolModule::LoadTools);
    proof {
        assert(p1 =~= seq![
            ToolModule::DefaultTools(true),
            ToolModule::ApplyPatch,
            ToolModule::Write,
            ToolModule::EditReplace,
            ToolModule::TodoWrite,
            ToolModule::Alarm,
            ToolModule::Clipboard,
            ToolModule::WebFetch,
            ToolModule::Weather,
            ToolModule::ExchangeRate,
            ToolModule::Xuanxue,
        ]);
        assert(p3 =~= p2 + seq![
            ToolModule::Moegirl,
            ToolModule::HashCodec,
            ToolModule::Calculator,
            ToolModule::DeepseekStatus,
            ToolModule::VisionPrint,
        ]);
        assert(p5 =~= p4 + seq![ToolModule::LocalVision, ToolModule::Speech]);
        assert(p7 =~= p6 + seq![ToolModule::Task, ToolModule::Scripts, ToolModule::Agents]);
        assert(v@ =~= builtin_plan(*c));
    }
    v
}

/// The modules of the read-only registry: read-only default tools, clipboard
/// and page fetching, and the read-only forms of the plugins that are on.
pub open spec fn readonly_plan(c: RegistryConfig) -> Seq<ToolModule> {
    seq![ToolModule::DefaultToolsReadonly, ToolModule::Clipboard, ToolModule::WebFetch] + when(
        c.man,
        ToolModule::Man,
    ) + when(c.web, ToolModule::Web) + when(c.web_images, ToolModule::WebImages(false)) + when(
        c.vision,
        ToolModule::Vision(true),
    ) + when(c.knowledge_base, ToolModule::KnowledgeBaseReadonly) + when(
        c.diagnostics,
        ToolModule::Diagnostics,
    ) + when(c.memory, ToolModule::MemoryReadonly) + when(
        hybrid_mode(c.loading_mode@),
        ToolModule::LoadTools,
    ) + when(c.mcp, ToolModule::Mcp)
}

pub fn readonly_registry(c: &RegistryConfig) -> (r: Vec<ToolModule>)
    ensures
        r@ == readonly_plan(*c),
{
    let mut v: Vec<ToolModule> = Vec::new();
    v.push(ToolModule::DefaultToolsReadonly);
    v.push(ToolModule::Clipboard);
    v.push(ToolModule::WebFetch);
    let ghost p1 = v@;
    push_when(&mut v, c.man, ToolModule::Man);
    push_when(&mut v, c.web, ToolModule::Web);
    push_when(&mut v, c.web_images, ToolModule::WebImages(false));
    push_when(&mut v, c.vision, ToolModule::Vision(true));
    push_when(&mut v, c.knowledge_base, ToolModule::KnowledgeBaseReadonly);
    push_when(&mut v, c.diagnostics, ToolModule::Diagnostics);
    push_when(&mut v, c.memory, ToolModule::MemoryReadonly);
    let hybrid = is_hybrid_loading_mode(c.loading_mode.as_str());
    push_when(&mut v, hybrid, ToolModule::LoadTools);
    push_when(&mut v, c.mcp, ToolModule::Mcp);
    proof {
        assert(p1 =~= seq![ToolModule::DefaultToolsReadonly, ToolModule::Clipboard, ToolModule::WebFetch]);
        assert(v@ =~= readonly_plan(*c));
    }
    v
}

/// The modules of the chat registry: none in pure-text chat, else page
/// fetching and the web, vision, meme and read-only memory tools that are on.
pub open spec fn chat_plan(c: RegistryConfig) -> Seq<ToolModule> {
    if c.chat_pure_text {
        seq![]
    } else {
        seq![ToolModule::WebFetch] + when(c.web, ToolModule::Web) + when(
            c.vision,
            ToolModule::Vision(true),
        ) + when(c.memes, ToolModule::MemesChat) + when(c.memory, ToolModule::MemoryReadonly)
    }
}

pub fn chat_registry(c: &RegistryConfig) -> (r: Vec<ToolModule>)
    ensures
        r@ == chat_plan(*c),
{
    let mut v: Vec<ToolModule> = Vec::new();
    if c.chat_pure_text {
        return v;
    }
    v.push(ToolModule::WebFetch);
    let ghost p1 = v@;
    push_when(&mut v, c.web, ToolModule::Web);
    push_when(&mut v, c.vision, ToolModule::Vision(true));
    push_when(&mut v, c.memes, ToolModule::MemesChat);
    push_when(&mut v, c.memory, ToolModule::MemoryReadonly);
    proof {
        assert(p1 =~= seq![ToolModule::WebFetch]);
        assert(v@ =~= chat_plan(*c));
    }
    v
}

} // verus!

verus! {

/// Adds the tool that lets the agent ask the user a question.
pub fn register_ask_question(registry: &mut Vec<ToolModule>)
    ensures
        final(registry)@ == old(registry)@.push(ToolModule::AskQuestion),
{
    registry.push(ToolModule::AskQuestion);
}

} // verus!
